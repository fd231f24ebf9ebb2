//! Reads pod resource usage from the cgroup v2 filesystem.
//!
//! Supports both cgroup drivers:
//! - systemd:  kubepods.slice/kubepods-burstable.slice/kubepods-burstable-pod<uid_>.slice
//!   (pod UID dashes are encoded as underscores in slice names)
//! - cgroupfs: kubepods/burstable/pod<uid>
//!
//! The directory walk itself is done by the caller; this module decides, for
//! each directory name it is shown, what the name means.

use vstd::prelude::*;
use crate::text::{
    chars_of, contains, contains_seq, occurs_at, ends_with, is_hex_digit, lines, lines_of, parse_u64,
    parse_u64_spec, push_all, rfind, rfind_spec, slice_chars, starts_with, string_of, tokens,
    tokens_of, trim, trim_chars, chars_eq,
};

verus! {

#[derive(Clone, Copy, Debug, PartialEq, Eq, Structural)]
pub enum QosClass {
    Guaranteed,
    Burstable,
    BestEffort,
}

impl QosClass {
    /// The Kubernetes name of the class.
    pub open spec fn name(self) -> Seq<char> {
        match self {
            QosClass::Guaranteed => "Guaranteed"@,
            QosClass::Burstable => "Burstable"@,
            QosClass::BestEffort => "BestEffort"@,
        }
    }

    pub fn as_str(&self) -> (s: &'static str)
        ensures
            s@ == self.name(),
    {
        match self {
            QosClass::Guaranteed => "Guaranteed",
            QosClass::Burstable => "Burstable",
            QosClass::BestEffort => "BestEffort",
        }
    }
}

/// One pod cgroup directory.
pub struct PodCgroup {
    /// Canonical pod UID (dashes, as seen by the Kubernetes API).
    pub uid: String,
    pub path: String,
    pub qos: QosClass,
}

pub struct PodCgroupView {
    pub uid: Seq<char>,
    pub path: Seq<char>,
    pub qos: QosClass,
}

impl View for PodCgroup {
    type V = PodCgroupView;

    open spec fn view(&self) -> PodCgroupView {
        PodCgroupView { uid: self.uid@, path: self.path@, qos: self.qos }
    }
}

// ---------------------------------------------------------------------------
// Directory names
// ---------------------------------------------------------------------------

/// A canonical pod UID: 36 characters, dashes at 8, 13, 18 and 23, hex digits elsewhere.
pub open spec fn is_pod_uid_spec(s: Seq<char>) -> bool {
    s.len() == 36 && forall|i: int|
        0 <= i < 36 ==> if i == 8 || i == 13 || i == 18 || i == 23 {
            s[i] == '-'
        } else {
            is_hex_digit(s[i])
        }
}

/// `s` with every `from` replaced by `to`.
pub open spec fn replace_char(s: Seq<char>, from: char, to: char) -> Seq<char> {
    s.map_values(|c: char| if c == from { to } else { c })
}

/// The name without a trailing `.slice`.
pub open spec fn slice_stem(name: Seq<char>) -> Seq<char> {
    if ".slice"@.is_suffix_of(name) {
        name.subrange(0, name.len() - ".slice"@.len())
    } else {
        name
    }
}

/// The QoS class that a name spells, when it spells one.
pub open spec fn qos_in_name(prefix: Seq<char>) -> Option<QosClass> {
    if contains_seq(prefix, "burstable"@) {
        Some(QosClass::Burstable)
    } else if contains_seq(prefix, "besteffort"@) {
        Some(QosClass::BestEffort)
    } else if contains_seq(prefix, "kubepods"@) {
        Some(QosClass::Guaranteed)
    } else {
        None
    }
}

/// What `parse_pod_dir_name` returns: the name (without `.slice`) must end in
/// `pod<uid>`, the last `pod` in it introducing the UID (underscores standing
/// for dashes); the QoS class comes from what precedes `pod`.
pub open spec fn pod_dir_spec(name: Seq<char>) -> Option<(Seq<char>, Option<QosClass>)> {
    let stem = slice_stem(name);
    match rfind_spec(stem, "pod"@) {
        None => None,
        Some(at) => {
            let uid = replace_char(stem.subrange(at + "pod"@.len(), stem.len() as int), '_', '-');
            if is_pod_uid_spec(uid) {
                Some((uid, qos_in_name(stem.subrange(0, at))))
            } else {
                None
            }
        },
    }
}

/// Whether `s` is a canonical pod UID.
pub fn is_pod_uid(s: &[char]) -> (r: bool)
    ensures
        r == is_pod_uid_spec(s@),
{
    if s.len() != 36 {
        return false;
    }
    let mut i: usize = 0;
    while i < 36
        invariant
            s@.len() == 36,
            i <= 36,
            forall|k: int|
                0 <= k < i ==> if k == 8 || k == 13 || k == 18 || k == 23 {
                    s@[k] == '-'
                } else {
                    is_hex_digit(s@[k])
                },
        decreases 36 - i,
    {
        let c = s[i];
        let ok = if i == 8 || i == 13 || i == 18 || i == 23 {
            c == '-'
        } else {
            ('0' <= c && c <= '9') || ('a' <= c && c <= 'f') || ('A' <= c && c <= 'F')
        };
        if !ok {
            return false;
        }
        i += 1;
    }
    true
}

fn replace_char_exec(s: &[char], from: char, to: char) -> (out: Vec<char>)
    ensures
        out@ == replace_char(s@, from, to),
{
    let mut out: Vec<char> = Vec::new();
    let mut i: usize = 0;
    while i < s.len()
        invariant
            i <= s@.len(),
            out@ == replace_char(s@.subrange(0, i as int), from, to),
        decreases s.len() - i,
    {
        let c = s[i];
        out.push(if c == from { to } else { c });
        i += 1;
        assert(out@ =~= replace_char(s@.subrange(0, i as int), from, to));
    }
    assert(s@.subrange(0, s@.len() as int) =~= s@);
    out
}

fn qos_in_name_exec(prefix: &[char]) -> (r: Option<QosClass>)
    ensures
        r == qos_in_name(prefix@),
{
    let burstable = chars_of("burstable");
    let besteffort = chars_of("besteffort");
    let kubepods = chars_of("kubepods");
    if contains(prefix, &burstable) {
        Some(QosClass::Burstable)
    } else if contains(prefix, &besteffort) {
        Some(QosClass::BestEffort)
    } else if contains(prefix, &kubepods) {
        Some(QosClass::Guaranteed)
    } else {
        None
    }
}

/// Extracts a canonical pod UID from a cgroup directory name, if it is a pod
/// slice. Slice prefixes vary with the kubelet's cgroup config (`kubepods-`,
/// `kubelet-kubepods-`, bare `pod<uid>` for the cgroupfs driver), so this
/// only requires the name to end in `pod<uid>`; QoS is read from the name
/// when present, otherwise from the parent directory.
pub fn parse_pod_dir_name(name: &str) -> (r: Option<(String, Option<QosClass>)>)
    ensures
        match pod_dir_spec(name@) {
            Some((uid, qos)) => r matches Some((u, q)) && u@ == uid && q == qos,
            None => r is None,
        },
{
    let chars = chars_of(name);
    let suffix = chars_of(".slice");
    let stem = if ends_with(&chars, &suffix) {
        slice_chars(&chars, 0, chars.len() - suffix.len())
    } else {
        chars
    };
    assert(stem@ == slice_stem(name@));
    let pod = chars_of("pod");
    match rfind(&stem, &pod) {
        None => None,
        Some(at) => {
            let sl = stem.len();
            assert(occurs_at(stem@, pod@, at as int));
            let tail = slice_chars(&stem, at + pod.len(), sl);
            let uid = replace_char_exec(&tail, '_', '-');
            assert(uid@ == replace_char(
                slice_stem(name@).subrange(at + "pod"@.len(), slice_stem(name@).len() as int),
                '_',
                '-',
            ));
            if !is_pod_uid(&uid) {
                return None;
            }
            let prefix = slice_chars(&stem, 0, at);
            let qos = qos_in_name_exec(&prefix);
            Some((string_of(&uid), qos))
        },
    }
}

/// The QoS sub-level that a directory directly under the kubepods root stands
/// for (`*burstable*`, `*besteffort*`), if any.
pub open spec fn qos_level_spec(name: Seq<char>) -> Option<QosClass> {
    if contains_seq(name, "burstable"@) {
        Some(QosClass::Burstable)
    } else if contains_seq(name, "besteffort"@) {
        Some(QosClass::BestEffort)
    } else {
        None
    }
}

/// The QoS sub-level that a directory directly under the kubepods root stands for.
pub fn qos_level(name: &str) -> (r: Option<QosClass>)
    ensures
        r == qos_level_spec(name@),
{
    let chars = chars_of(name);
    let burstable = chars_of("burstable");
    let besteffort = chars_of("besteffort");
    if contains(&chars, &burstable) {
        Some(QosClass::Burstable)
    } else if contains(&chars, &besteffort) {
        Some(QosClass::BestEffort)
    } else {
        None
    }
}

/// What the search for the kubepods root does with a directory it meets.
#[derive(Clone, Copy, Debug, PartialEq, Eq, Structural)]
pub enum RootSearch {
    /// The name contains `kubepods`: this is the root.
    Found,
    /// A `.scope` directory (container or unit): never holds the root.
    Skip,
    /// Search below this directory on the next level.
    Descend,
}

pub open spec fn root_search_spec(name: Seq<char>) -> RootSearch {
    if contains_seq(name, "kubepods"@) {
        RootSearch::Found
    } else if ".scope"@.is_suffix_of(name) {
        RootSearch::Skip
    } else {
        RootSearch::Descend
    }
}

/// Decides what the breadth-first search for the kubepods root (at most three
/// levels deep) does with a directory of the given name.
pub fn root_search_step(name: &str) -> (r: RootSearch)
    ensures
        r == root_search_spec(name@),
{
    let chars = chars_of(name);
    let kubepods = chars_of("kubepods");
    let scope = chars_of(".scope");
    if contains(&chars, &kubepods) {
        RootSearch::Found
    } else if ends_with(&chars, &scope) {
        RootSearch::Skip
    } else {
        RootSearch::Descend
    }
}

/// What one level of the search for the kubepods root yields.
pub enum LevelOutcome {
    /// The path of the first directory, in listing order, whose name contains `kubepods`.
    Found(String),
    /// The directories to list on the next level, in listing order.
    Next(Vec<String>),
}

/// The index of the first directory of a level whose name contains `kubepods`.
pub open spec fn first_root(dirs: Seq<(String, String)>) -> Option<int>
    decreases dirs.len(),
{
    if dirs.len() == 0 {
        None
    } else if root_search_spec(dirs[0].0@) == RootSearch::Found {
        Some(0)
    } else {
        match first_root(dirs.drop_first()) {
            Some(i) => Some(i + 1),
            None => None,
        }
    }
}

/// The paths of the directories of a level to search below next.
pub open spec fn descend_paths(dirs: Seq<(String, String)>) -> Seq<Seq<char>>
    decreases dirs.len(),
{
    if dirs.len() == 0 {
        seq![]
    } else {
        descend_paths(dirs.drop_last()) + if root_search_spec(dirs.last().0@)
            == RootSearch::Descend {
            seq![dirs.last().1@]
        } else {
            seq![]
        }
    }
}

/// One level of the breadth-first search for the kubepods root: `dirs` are
/// the (name, path) of the directories listed under the current level's
/// directories, in order.
pub fn search_level(dirs: &Vec<(String, String)>) -> (r: LevelOutcome)
    ensures
        match first_root(dirs@) {
            Some(i) => r matches LevelOutcome::Found(p) && p@ == dirs@[i].1@,
            None => r matches LevelOutcome::Next(n) && n@.map_values(|x: String| x@)
                == descend_paths(dirs@),
        },
{
    let mut next: Vec<String> = Vec::new();
    let mut i: usize = 0;
    assert(dirs@.subrange(0, dirs@.len() as int) =~= dirs@);
    assert(next@.map_values(|x: String| x@) =~= descend_paths(dirs@.subrange(0, 0)));
    while i < dirs.len()
        invariant
            i <= dirs@.len(),
            first_root(dirs@) == match first_root(dirs@.subrange(i as int, dirs@.len() as int)) {
                Some(j) => Some(j + i),
                None => None,
            },
            next@.map_values(|x: String| x@) == descend_paths(dirs@.subrange(0, i as int)),
        decreases dirs.len() - i,
    {
        let ghost rest = dirs@.subrange(i as int, dirs@.len() as int);
        assert(rest[0] == dirs@[i as int]);
        assert(rest.drop_first() =~= dirs@.subrange(i + 1, dirs@.len() as int));
        let ghost pre = dirs@.subrange(0, i + 1);
        assert(pre.drop_last() =~= dirs@.subrange(0, i as int));
        assert(pre.last() == dirs@[i as int]);
        match root_search_step(dirs[i].0.as_str()) {
            RootSearch::Found => {
                return LevelOutcome::Found(dirs[i].1.clone());
            },
            RootSearch::Skip => {
                assert(next@.map_values(|x: String| x@) =~= descend_paths(pre));
            },
            RootSearch::Descend => {
                next.push(dirs[i].1.clone());
                assert(next@.map_values(|x: String| x@) =~= descend_paths(pre));
            },
        }
        i += 1;
    }
    assert(dirs@.subrange(0, dirs@.len() as int) =~= dirs@);
    LevelOutcome::Next(next)
}

// ---------------------------------------------------------------------------
// Discovery over a listing of the kubepods root
// ---------------------------------------------------------------------------

/// A directory under a QoS sub-level.
pub struct CgroupLeaf {
    pub name: String,
    pub path: String,
}

/// A directory directly under the kubepods root, with the directories under
/// it when it is a QoS sub-level (see `needs_listing`).
pub struct CgroupDir {
    pub name: String,
    pub path: String,
    pub children: Vec<CgroupLeaf>,
}

/// The pod found in a directory, given the QoS of its parent level.
pub open spec fn pod_in(name: Seq<char>, path: Seq<char>, parent: Option<QosClass>) -> Option<
    PodCgroupView,
> {
    match pod_dir_spec(name) {
        Some((uid, qos)) => Some(
            PodCgroupView {
                uid,
                path,
                qos: match qos {
                    Some(q) => q,
                    None => match parent {
                        Some(p) => p,
                        None => QosClass::Guaranteed,
                    },
                },
            },
        ),
        None => None,
    }
}

/// The pods in the directories of a QoS sub-level, in listing order.
pub open spec fn leaf_pods(leaves: Seq<CgroupLeaf>, parent: QosClass) -> Seq<PodCgroupView>
    decreases leaves.len(),
{
    if leaves.len() == 0 {
        seq![]
    } else {
        let l = leaves.last();
        leaf_pods(leaves.drop_last(), parent) + match pod_in(l.name@, l.path@, Some(parent)) {
            Some(p) => seq![p],
            None => seq![],
        }
    }
}

/// The pods that one directory of the kubepods root yields.
pub open spec fn dir_pods(d: CgroupDir) -> Seq<PodCgroupView> {
    match pod_in(d.name@, d.path@, None) {
        Some(p) => seq![p],
        None => match qos_level_spec(d.name@) {
            Some(q) => leaf_pods(d.children@, q),
            None => seq![],
        },
    }
}

/// The pods under the kubepods root, in listing order, depth first.
pub open spec fn discovered(dirs: Seq<CgroupDir>) -> Seq<PodCgroupView>
    decreases dirs.len(),
{
    if dirs.len() == 0 {
        seq![]
    } else {
        discovered(dirs.drop_last()) + dir_pods(dirs.last())
    }
}

/// Whether the caller must list the directories under this entry of the
/// kubepods root before calling `discover_pods`.
pub fn needs_listing(name: &str) -> (r: bool)
    ensures
        r == (pod_dir_spec(name@) is None && qos_level_spec(name@) is Some),
{
    parse_pod_dir_name(name).is_none() && qos_level(name).is_some()
}

fn pod_from(name: &String, path: &String, parent: Option<QosClass>) -> (r: Option<PodCgroup>)
    ensures
        match pod_in(name@, path@, parent) {
            Some(p) => r matches Some(c) && c@ == p,
            None => r is None,
        },
{
    match parse_pod_dir_name(name.as_str()) {
        Some((uid, qos)) => {
            let q = match qos {
                Some(q) => q,
                None => match parent {
                    Some(p) => p,
                    None => QosClass::Guaranteed,
                },
            };
            Some(PodCgroup { uid, path: path.clone(), qos: q })
        },
        None => None,
    }
}

/// Discovers all pod cgroups in a listing of the kubepods root.
pub fn discover_pods(dirs: &Vec<CgroupDir>) -> (pods: Vec<PodCgroup>)
    ensures
        pods@.map_values(|p: PodCgroup| p@) == discovered(dirs@),
{
    let mut pods: Vec<PodCgroup> = Vec::new();
    let mut i: usize = 0;
    while i < dirs.len()
        invariant
            i <= dirs@.len(),
            pods@.map_values(|p: PodCgroup| p@) == discovered(dirs@.subrange(0, i as int)),
        decreases dirs.len() - i,
    {
        let d = &dirs[i];
        let ghost before = pods@;
        match pod_from(&d.name, &d.path, None) {
            Some(p) => {
                pods.push(p);
            },
            None => {
                if let Some(q) = qos_level(d.name.as_str()) {
                    let mut j: usize = 0;
                    while j < d.children.len()
                        invariant
                            j <= d.children@.len(),
                            pods@.map_values(|p: PodCgroup| p@) == before.map_values(
                                |p: PodCgroup| p@,
                            ) + leaf_pods(d.children@.subrange(0, j as int), q),
                        decreases d.children.len() - j,
                    {
                        let leaf = &d.children[j];
                        let ghost mid = pods@;
                        if let Some(p) = pod_from(&leaf.name, &leaf.path, Some(q)) {
                            pods.push(p);
                        }
                        proof {
                            assert(d.children@.subrange(0, j + 1).drop_last() =~= d.children@.subrange(
                                0,
                                j as int,
                            ));
                            assert(pods@.map_values(|p: PodCgroup| p@) =~= mid.map_values(
                                |p: PodCgroup| p@,
                            ) + match pod_in(leaf.name@, leaf.path@, Some(q)) {
                                Some(p) => seq![p],
                                None => seq![],
                            });
                        }
                        j += 1;
                    }
                    assert(d.children@.subrange(0, d.children@.len() as int) =~= d.children@);
                }
            },
        }
        proof {
            assert(dirs@.subrange(0, i + 1).drop_last() =~= dirs@.subrange(0, i as int));
            assert(dirs@.subrange(0, i + 1).last() == *d);
            assert(pods@.map_values(|p: PodCgroup| p@) =~= before.map_values(|p: PodCgroup| p@)
                + dir_pods(*d));
        }
        i += 1;
    }
    assert(dirs@.subrange(0, dirs@.len() as int) =~= dirs@);
    pods
}

} // verus!

verus! {

// ---------------------------------------------------------------------------
// Counter files
// ---------------------------------------------------------------------------

/// The integer counters read from one pod cgroup.
#[derive(Clone, Copy, Debug, PartialEq, Eq, Structural)]
pub struct PodCounters {
    /// Cumulative CPU time consumed, microseconds (cpu.stat usage_usec).
    pub cpu_usage_usec: u64,
    /// Cumulative number of enforcement periods (cpu.stat nr_periods).
    pub cpu_nr_periods: u64,
    /// Cumulative number of throttled periods (cpu.stat nr_throttled).
    pub cpu_nr_throttled: u64,
    /// Total memory currently used, bytes (memory.current).
    pub mem_current: u64,
    /// Working set: memory.current minus inactive file cache, bytes.
    pub mem_working_set: u64,
}

/// A parsed number, or 0 when the text is not one.
pub open spec fn u64_or_zero(s: Seq<char>) -> u64 {
    match parse_u64_spec(s) {
        Some(v) => v,
        None => 0,
    }
}

/// One `cpu.stat` line applied to `(usage_usec, nr_periods, nr_throttled)`:
/// a known key followed by a value sets that counter (unparsable values give 0).
pub open spec fn cpu_stat_step(st: (u64, u64, u64), line: Seq<char>) -> (u64, u64, u64) {
    let t = tokens(line);
    if t.len() >= 2 {
        let v = u64_or_zero(t[1]);
        if t[0] == "usage_usec"@ {
            (v, st.1, st.2)
        } else if t[0] == "nr_periods"@ {
            (st.0, v, st.2)
        } else if t[0] == "nr_throttled"@ {
            (st.0, st.1, v)
        } else {
            st
        }
    } else {
        st
    }
}

pub open spec fn cpu_stat_fold(ls: Seq<Seq<char>>) -> (u64, u64, u64)
    decreases ls.len(),
{
    if ls.len() == 0 {
        (0, 0, 0)
    } else {
        cpu_stat_step(cpu_stat_fold(ls.drop_last()), ls.last())
    }
}

/// The `inactive_file` value of `memory.stat`: the first line that starts
/// with `"inactive_file "` decides; absent, it is 0.
pub open spec fn inactive_file_spec(ls: Seq<Seq<char>>) -> u64
    decreases ls.len(),
{
    if ls.len() == 0 {
        0
    } else if "inactive_file "@.is_prefix_of(ls[0]) {
        u64_or_zero(trim(ls[0].subrange("inactive_file "@.len() as int, ls[0].len() as int)))
    } else {
        inactive_file_spec(ls.drop_first())
    }
}

/// What `pod_counters` reads from the three files (a missing file reads as zeros).
pub open spec fn pod_counters_spec(
    cpu_stat: Option<Seq<char>>,
    memory_current: Option<Seq<char>>,
    memory_stat: Option<Seq<char>>,
) -> PodCounters {
    let cpu = match cpu_stat {
        Some(c) => cpu_stat_fold(lines(c)),
        None => (0u64, 0u64, 0u64),
    };
    let cur = match memory_current {
        Some(c) => u64_or_zero(trim(c)),
        None => 0,
    };
    let inactive = match memory_stat {
        Some(c) => inactive_file_spec(lines(c)),
        None => 0,
    };
    PodCounters {
        cpu_usage_usec: cpu.0,
        cpu_nr_periods: cpu.1,
        cpu_nr_throttled: cpu.2,
        mem_current: cur,
        mem_working_set: if cur >= inactive {
            (cur - inactive) as u64
        } else {
            0
        },
    }
}

fn u64_or_zero_exec(s: &[char]) -> (r: u64)
    ensures
        r == u64_or_zero(s@),
{
    match parse_u64(s) {
        Some(v) => v,
        None => 0,
    }
}

fn cpu_stat_exec(content: &str) -> (r: (u64, u64, u64))
    ensures
        r == cpu_stat_fold(lines(content@)),
{
    let chars = chars_of(content);
    let ls = lines_of(&chars);
    let usage = chars_of("usage_usec");
    let periods = chars_of("nr_periods");
    let throttled = chars_of("nr_throttled");
    let mut st: (u64, u64, u64) = (0, 0, 0);
    let mut i: usize = 0;
    while i < ls.len()
        invariant
            i <= ls@.len(),
            crate::text::views(ls@) == lines(content@),
            usage@ == "usage_usec"@,
            periods@ == "nr_periods"@,
            throttled@ == "nr_throttled"@,
            st == cpu_stat_fold(lines(content@).subrange(0, i as int)),
        decreases ls.len() - i,
    {
        let t = tokens_of(&ls[i]);
        proof {
            assert(lines(content@)[i as int] == ls@[i as int]@);
            assert(lines(content@).subrange(0, i + 1).drop_last() =~= lines(content@).subrange(
                0,
                i as int,
            ));
            assert(crate::text::views(t@) == tokens(ls@[i as int]@));
        }
        if t.len() >= 2 {
            assert(t@[0]@ == tokens(ls@[i as int]@)[0]);
            assert(t@[1]@ == tokens(ls@[i as int]@)[1]);
            let v = u64_or_zero_exec(&t[1]);
            if chars_eq(&t[0], &usage) {
                st = (v, st.1, st.2);
            } else if chars_eq(&t[0], &periods) {
                st = (st.0, v, st.2);
            } else if chars_eq(&t[0], &throttled) {
                st = (st.0, st.1, v);
            }
        }
        i += 1;
    }
    assert(lines(content@).subrange(0, ls@.len() as int) =~= lines(content@));
    st
}

fn inactive_file_exec(content: &str) -> (r: u64)
    ensures
        r == inactive_file_spec(lines(content@)),
{
    let chars = chars_of(content);
    let ls = lines_of(&chars);
    let key = chars_of("inactive_file ");
    let ghost all = lines(content@);
    assert(all.subrange(0, all.len() as int) =~= all);
    let mut i: usize = 0;
    while i < ls.len()
        invariant
            i <= ls@.len(),
            crate::text::views(ls@) == all,
            all == lines(content@),
            key@ == "inactive_file "@,
            inactive_file_spec(all) == inactive_file_spec(all.subrange(i as int, all.len() as int)),
        decreases ls.len() - i,
    {
        let line = &ls[i];
        let ghost rest = all.subrange(i as int, all.len() as int);
        assert(rest[0] == line@);
        assert(rest.drop_first() =~= all.subrange(i + 1, all.len() as int));
        if starts_with(line, &key) {
            let value = slice_chars(line, key.len(), line.len());
            let trimmed = trim_chars(&value);
            assert(rest.len() > 0);
            assert("inactive_file "@.is_prefix_of(rest[0]));
            assert(inactive_file_spec(rest) == u64_or_zero(trim(value@)));
            return u64_or_zero_exec(&trimmed);
        }
        i += 1;
    }
    0
}

/// The integer part of a pod cgroup's stats, from the contents of its
/// `cpu.stat`, `memory.current` and `memory.stat` files (`None`: unreadable).
pub fn pod_counters(
    cpu_stat: Option<&str>,
    memory_current: Option<&str>,
    memory_stat: Option<&str>,
) -> (r: PodCounters)
    ensures
        r == pod_counters_spec(
            match cpu_stat {
                Some(c) => Some(c@),
                None => None,
            },
            match memory_current {
                Some(c) => Some(c@),
                None => None,
            },
            match memory_stat {
                Some(c) => Some(c@),
                None => None,
            },
        ),
{
    let cpu = match cpu_stat {
        Some(c) => cpu_stat_exec(c),
        None => (0, 0, 0),
    };
    let cur = match memory_current {
        Some(c) => {
            let chars = chars_of(c);
            let t = trim_chars(&chars);
            u64_or_zero_exec(&t)
        },
        None => 0,
    };
    let inactive = match memory_stat {
        Some(c) => inactive_file_exec(c),
        None => 0,
    };
    PodCounters {
        cpu_usage_usec: cpu.0,
        cpu_nr_periods: cpu.1,
        cpu_nr_throttled: cpu.2,
        mem_current: cur,
        mem_working_set: cur.saturating_sub(inactive),
    }
}

// ---------------------------------------------------------------------------
// Pressure stall information
// ---------------------------------------------------------------------------

/// The value of the first `avg10=` field among `fields`.
pub open spec fn avg10_field(fields: Seq<Seq<char>>) -> Option<Seq<char>>
    decreases fields.len(),
{
    if fields.len() == 0 {
        None
    } else if "avg10="@.is_prefix_of(fields[0]) {
        Some(fields[0].subrange(6, fields[0].len() as int))
    } else {
        avg10_field(fields.drop_first())
    }
}

/// The `avg10` text of a PSI file: on the first line that starts with
/// `"some "` and carries an `avg10=` field, the text after `avg10=`.
pub open spec fn psi_avg10_spec(ls: Seq<Seq<char>>) -> Option<Seq<char>>
    decreases ls.len(),
{
    if ls.len() == 0 {
        None
    } else {
        let here = if "some "@.is_prefix_of(ls[0]) {
            avg10_field(tokens(ls[0].subrange(5, ls[0].len() as int)))
        } else {
            None
        };
        match here {
            Some(v) => Some(v),
            None => psi_avg10_spec(ls.drop_first()),
        }
    }
}

fn avg10_exec(fields: &Vec<Vec<char>>) -> (r: Option<Vec<char>>)
    ensures
        match r {
            Some(v) => avg10_field(crate::text::views(fields@)) == Some(v@),
            None => avg10_field(crate::text::views(fields@)) is None,
        },
{
    let key = chars_of("avg10=");
    proof {
        reveal_strlit("avg10=");
    }
    let ghost all = crate::text::views(fields@);
    assert(all.subrange(0, all.len() as int) =~= all);
    let mut i: usize = 0;
    while i < fields.len()
        invariant
            i <= fields@.len(),
            all == crate::text::views(fields@),
            key@ == "avg10="@,
            key@.len() == 6,
            avg10_field(all) == avg10_field(all.subrange(i as int, all.len() as int)),
        decreases fields.len() - i,
    {
        let ghost rest = all.subrange(i as int, all.len() as int);
        assert(rest[0] == fields@[i as int]@);
        assert(rest.drop_first() =~= all.subrange(i + 1, all.len() as int));
        if starts_with(&fields[i], &key) {
            return Some(slice_chars(&fields[i], key.len(), fields[i].len()));
        }
        i += 1;
    }
    None
}

/// The `avg10` text of the "some" line of a PSI file (`cpu.pressure`,
/// `memory.pressure`), e.g. `"1.50"` for `"some avg10=1.50 avg60=..."`;
/// `None` when no such field is present. The value is a percentage.
pub fn psi_some_avg10(content: &str) -> (r: Option<String>)
    ensures
        match r {
            Some(v) => psi_avg10_spec(lines(content@)) == Some(v@),
            None => psi_avg10_spec(lines(content@)) is None,
        },
{
    let chars = chars_of(content);
    let ls = lines_of(&chars);
    let key = chars_of("some ");
    proof {
        reveal_strlit("some ");
    }
    let ghost all = lines(content@);
    assert(all.subrange(0, all.len() as int) =~= all);
    let mut i: usize = 0;
    while i < ls.len()
        invariant
            i <= ls@.len(),
            crate::text::views(ls@) == all,
            all == lines(content@),
            key@ == "some "@,
            key@.len() == 5,
            psi_avg10_spec(all) == psi_avg10_spec(all.subrange(i as int, all.len() as int)),
        decreases ls.len() - i,
    {
        let line = &ls[i];
        let ghost rest = all.subrange(i as int, all.len() as int);
        assert(rest[0] == line@);
        assert(rest.drop_first() =~= all.subrange(i + 1, all.len() as int));
        if starts_with(line, &key) {
            let after = slice_chars(line, key.len(), line.len());
            let fields = tokens_of(&after);
            match avg10_exec(&fields) {
                Some(v) => {
                    return Some(string_of(&v));
                },
                None => {},
            }
        }
        i += 1;
    }
    None
}

// ---------------------------------------------------------------------------
// Laws of the QoS levels
// ---------------------------------------------------------------------------

/// A directory under the kubepods root whose name contains `burstable` is
/// the Burstable level, one containing `besteffort` but not `burstable` the
/// BestEffort level, and any other is no QoS level.
pub proof fn law_qos_level_names(name: Seq<char>)
    ensures
        contains_seq(name, "burstable"@) ==> qos_level_spec(name) == Some(QosClass::Burstable),
        !contains_seq(name, "burstable"@) && contains_seq(name, "besteffort"@) ==> qos_level_spec(
            name,
        ) == Some(QosClass::BestEffort),
        !contains_seq(name, "burstable"@) && !contains_seq(name, "besteffort"@) ==> qos_level_spec(
            name,
        ) is None,
{
}

/// A pod directory whose own name carries no QoS class (the cgroupfs layout
/// `kubepods/<level>/pod<uid>`) takes the class of its level: under a
/// directory whose name contains `burstable` it is discovered as Burstable,
/// with its UID and path.
pub proof fn law_cgroupfs_pod_takes_level_qos(d: CgroupDir, leaf: CgroupLeaf, uid: Seq<char>)
    requires
        pod_dir_spec(d.name@) is None,
        contains_seq(d.name@, "burstable"@),
        d.children@ == seq![leaf],
        pod_dir_spec(leaf.name@) == Some((uid, None::<QosClass>)),
    ensures
        dir_pods(d) == seq![PodCgroupView { uid, path: leaf.path@, qos: QosClass::Burstable }],
{
    assert(d.children@.drop_last() =~= Seq::<CgroupLeaf>::empty());
    assert(leaf_pods(Seq::<CgroupLeaf>::empty(), QosClass::Burstable) =~= Seq::<PodCgroupView>::empty());
    assert(Seq::<PodCgroupView>::empty() + seq![PodCgroupView { uid, path: leaf.path@, qos: QosClass::Burstable }]
        =~= seq![PodCgroupView { uid, path: leaf.path@, qos: QosClass::Burstable }]);
}

/// The QoS class spelled before `pod` in a pod directory's name: `burstable`
/// gives Burstable, else `besteffort` BestEffort, else `kubepods` Guaranteed;
/// a bare `pod<uid>` carries none.
pub proof fn law_qos_in_pod_dir_names(prefix: Seq<char>)
    ensures
        contains_seq(prefix, "burstable"@) ==> qos_in_name(prefix) == Some(QosClass::Burstable),
        !contains_seq(prefix, "burstable"@) && contains_seq(prefix, "besteffort"@) ==> qos_in_name(
            prefix,
        ) == Some(QosClass::BestEffort),
        !contains_seq(prefix, "burstable"@) && !contains_seq(prefix, "besteffort"@)
            && contains_seq(prefix, "kubepods"@) ==> qos_in_name(prefix) == Some(
            QosClass::Guaranteed,
        ),
        !contains_seq(prefix, "burstable"@) && !contains_seq(prefix, "besteffort"@)
            && !contains_seq(prefix, "kubepods"@) ==> qos_in_name(prefix) is None,
{
}

/// Each class is named as Kubernetes spells it in a pod's status.
pub proof fn law_qos_class_names(q: QosClass)
    ensures
        QosClass::Guaranteed.name() == "Guaranteed"@,
        QosClass::Burstable.name() == "Burstable"@,
        QosClass::BestEffort.name() == "BestEffort"@,
        q.name() == "Guaranteed"@ || q.name() == "Burstable"@ || q.name() == "BestEffort"@,
{
}

/// The name of a pod directory: `prefix`, `pod`, the UID (with dashes, or
/// with underscores as the systemd driver writes it), and `.slice` for the
/// systemd driver.
pub open spec fn pod_dir_name(prefix: Seq<char>, uid: Seq<char>, systemd: bool) -> Seq<char> {
    if systemd {
        prefix + "pod"@ + replace_char(uid, '-', '_') + ".slice"@
    } else {
        prefix + "pod"@ + uid
    }
}

/// A pod directory name gives back its UID, with dashes, whatever `pod`
/// occurs earlier in it (as in `kubepods`), under either driver; its QoS
/// class is the one spelled before `pod`.
pub proof fn law_pod_dir_names_give_back_the_uid(prefix: Seq<char>, uid: Seq<char>, systemd: bool)
    requires
        is_pod_uid_spec(uid),
    ensures
        pod_dir_spec(pod_dir_name(prefix, uid, systemd)) == Some((uid, qos_in_name(prefix))),
{
    reveal_strlit("pod");
    reveal_strlit(".slice");
    let w = if systemd {
        replace_char(uid, '-', '_')
    } else {
        uid
    };
    let stem = prefix + "pod"@ + w;
    let name = pod_dir_name(prefix, uid, systemd);
    let pl = prefix.len() as int;
    assert(forall|j: int| 0 <= j < w.len() ==> w[j] != 'p') by {
        assert forall|j: int| 0 <= j < w.len() implies w[j] != 'p' by {
            if systemd {
                assert(w[j] == if uid[j] == '-' {
                    '_'
                } else {
                    uid[j]
                });
            }
        }
    }
    // the stem is the name without `.slice`
    if systemd {
        assert(name =~= stem + ".slice"@);
        assert(name.subrange(name.len() - 6, name.len() as int) =~= ".slice"@);
        assert(name.subrange(0, name.len() - ".slice"@.len()) =~= stem);
    } else {
        assert(name =~= stem);
        if ".slice"@.is_suffix_of(name) {
            assert(name.subrange(name.len() - 6, name.len() as int)[1] == name[name.len() - 5]);
            assert(name[name.len() - 5] == w[w.len() - 5]);
        }
    }
    assert(slice_stem(name) == stem);
    // the last `pod` is the one before the UID
    assert(stem.subrange(pl, pl + 3) =~= "pod"@);
    assert(crate::text::occurs_at(stem, "pod"@, pl));
    crate::text::lemma_rfind(stem, "pod"@);
    assert(rfind_spec(stem, "pod"@) is Some);
    let k = rfind_spec(stem, "pod"@)->0;
    assert(crate::text::occurs_at(stem, "pod"@, k));
    assert(k >= pl);
    if k > pl {
        assert(stem.subrange(k, k + 3)[0] == stem[k]);
        assert(stem[k] == 'p');
        if k > pl + 2 {
            assert(stem[k] == w[k - pl - 3]);
        } else {
            assert(stem[k] == "pod"@[k - pl]);
        }
    }
    assert(k == pl);
    assert(stem.subrange(0, pl) =~= prefix);
    assert(stem.subrange(pl + 3, stem.len() as int) =~= w);
    assert(replace_char(w, '_', '-') =~= uid) by {
        assert forall|j: int| 0 <= j < uid.len() implies replace_char(w, '_', '-')[j] == uid[j] by {
            assert(uid[j] != '_');
        }
    }
}

} // verus!

//! The bookkeeping of the collection cycle: per-pod state keyed by pod UID,
//! the counter deltas between two samples, and the choices the cycle makes.
//! The clock, the file reads and the rates (floating point) stay with the
//! caller, which keeps its sample timestamps in the per-pod state.

use vstd::prelude::*;
use crate::text::{chars_eq, chars_of};
use crate::agent::cgroup::{PodCounters, QosClass};
use crate::agent::node::CpuTimes;

verus! {

/// Per-pod state keyed by pod UID; each UID appears once.
pub struct UidMap<V> {
    pub entries: Vec<(String, V)>,
}

/// Whether some entry has the key `k`.
pub open spec fn has_key<V>(es: Seq<(String, V)>, k: Seq<char>) -> bool {
    exists|i: int| 0 <= i < es.len() && es[i].0@ == k
}

/// The map that the entries stand for.
pub open spec fn entries_map<V>(es: Seq<(String, V)>) -> Map<Seq<char>, V> {
    Map::new(
        |k: Seq<char>| has_key(es, k),
        |k: Seq<char>| es[choose|i: int| 0 <= i < es.len() && es[i].0@ == k].1,
    )
}

pub open spec fn keys_unique<V>(es: Seq<(String, V)>) -> bool {
    forall|i: int, j: int|
        0 <= i < es.len() && 0 <= j < es.len() && i != j ==> es[i].0@ != es[j].0@
}

pub proof fn lemma_entries_map_at<V>(es: Seq<(String, V)>, i: int)
    requires
        keys_unique(es),
        0 <= i < es.len(),
    ensures
        entries_map(es).contains_key(es[i].0@),
        entries_map(es)[es[i].0@] == es[i].1,
{
    let k = es[i].0@;
    assert(has_key(es, k));
    let c = choose|j: int| 0 <= j < es.len() && es[j].0@ == k;
    assert(c == i);
}

impl<V> UidMap<V> {
    pub open spec fn wf(&self) -> bool {
        keys_unique(self.entries@)
    }

    pub open spec fn view(&self) -> Map<Seq<char>, V> {
        entries_map(self.entries@)
    }

    pub fn new() -> (m: Self)
        ensures
            m.wf(),
            m.view() == Map::<Seq<char>, V>::empty(),
    {
        let m = UidMap { entries: Vec::new() };
        assert(m.view() =~= Map::<Seq<char>, V>::empty());
        m
    }

    fn position(&self, uid: &str) -> (r: Option<usize>)
        requires
            self.wf(),
        ensures
            match r {
                Some(i) => i < self.entries@.len() && self.entries@[i as int].0@ == uid@,
                None => !has_key(self.entries@, uid@),
            },
    {
        let key = chars_of(uid);
        let mut i: usize = 0;
        while i < self.entries.len()
            invariant
                i <= self.entries@.len(),
                key@ == uid@,
                forall|k: int| 0 <= k < i ==> self.entries@[k].0@ != uid@,
            decreases self.entries.len() - i,
        {
            let name = chars_of(self.entries[i].0.as_str());
            if chars_eq(&name, &key) {
                return Some(i);
            }
            i += 1;
        }
        None
    }

    /// Whether there is state for `uid`.
    pub fn contains(&self, uid: &str) -> (r: bool)
        requires
            self.wf(),
        ensures
            r == self.view().contains_key(uid@),
    {
        self.position(uid).is_some()
    }

    /// The state for `uid`, if any.
    pub fn get(&self, uid: &str) -> (r: Option<&V>)
        requires
            self.wf(),
        ensures
            match r {
                Some(v) => self.view().contains_key(uid@) && *v == self.view()[uid@],
                None => !self.view().contains_key(uid@),
            },
    {
        match self.position(uid) {
            Some(i) => {
                proof {
                    lemma_entries_map_at(self.entries@, i as int);
                }
                Some(&self.entries[i].1)
            },
            None => None,
        }
    }

    /// Sets the state for `uid`, returning the state it replaces.
    pub fn insert(&mut self, uid: String, value: V) -> (r: Option<V>)
        requires
            old(self).wf(),
        ensures
            final(self).wf(),
            final(self).view() == old(self).view().insert(uid@, value),
            match r {
                Some(v) => old(self).view().contains_key(uid@) && v == old(self).view()[uid@],
                None => !old(self).view().contains_key(uid@),
            },
    {
        let ghost old_es = self.entries@;
        let ghost key = uid@;
        match self.position(uid.as_str()) {
            Some(i) => {
                proof {
                    lemma_entries_map_at(old_es, i as int);
                }
                let (_, previous) = self.entries.remove(i);
                self.entries.insert(i, (uid, value));
                proof {
                    assert(self.entries@ =~= old_es.update(i as int, (self.entries@[i as int].0, value)));
                    assert(keys_unique(self.entries@)) by {
                        assert forall|a: int, b: int|
                            0 <= a < self.entries@.len() && 0 <= b < self.entries@.len() && a != b
                            implies self.entries@[a].0@ != self.entries@[b].0@ by {
                            if a != i && b != i {
                                assert(self.entries@[a] == old_es[a]);
                                assert(self.entries@[b] == old_es[b]);
                            } else if a == i {
                                assert(self.entries@[b] == old_es[b]);
                            } else {
                                assert(self.entries@[a] == old_es[a]);
                            }
                        }
                    }
                    assert forall|k: Seq<char>| #[trigger]
                        has_key(self.entries@, k) == old(self).view().insert(key, value).contains_key(
                            k,
                        ) by {
                        if has_key(old_es, k) {
                            let j = choose|j: int| 0 <= j < old_es.len() && old_es[j].0@ == k;
                            if j != i {
                                assert(self.entries@[j] == old_es[j]);
                            }
                        }
                        if has_key(self.entries@, k) {
                            let j = choose|j: int|
                                0 <= j < self.entries@.len() && self.entries@[j].0@ == k;
                            if j != i {
                                assert(self.entries@[j] == old_es[j]);
                            }
                        }
                    }
                    assert forall|k: Seq<char>|
                        #![trigger self.view()[k]]
                        self.view().contains_key(k) implies self.view()[k] == old(
                            self,
                        ).view().insert(key, value)[k] by {
                        let j = choose|j: int|
                            0 <= j < self.entries@.len() && self.entries@[j].0@ == k;
                        lemma_entries_map_at(self.entries@, j);
                        if j != i {
                            assert(self.entries@[j] == old_es[j]);
                            lemma_entries_map_at(old_es, j);
                        }
                    }
                    assert(self.view() =~= old(self).view().insert(key, value));
                }
                Some(previous)
            },
            None => {
                self.entries.push((uid, value));
                proof {
                    let n = old_es.len() as int;
                    assert(keys_unique(self.entries@)) by {
                        assert forall|a: int, b: int|
                            0 <= a < self.entries@.len() && 0 <= b < self.entries@.len() && a != b
                            implies self.entries@[a].0@ != self.entries@[b].0@ by {
                            if a < n && b < n {
                                assert(self.entries@[a] == old_es[a]);
                                assert(self.entries@[b] == old_es[b]);
                            } else if a < n {
                                assert(self.entries@[a] == old_es[a]);
                            } else {
                                assert(self.entries@[b] == old_es[b]);
                            }
                        }
                    }
                    assert forall|k: Seq<char>| #[trigger]
                        has_key(self.entries@, k) == old(self).view().insert(key, value).contains_key(
                            k,
                        ) by {
                        if has_key(old_es, k) {
                            let j = choose|j: int| 0 <= j < old_es.len() && old_es[j].0@ == k;
                            assert(self.entries@[j] == old_es[j]);
                        }
                        if has_key(self.entries@, k) {
                            let j = choose|j: int|
                                0 <= j < self.entries@.len() && self.entries@[j].0@ == k;
                            if j < n {
                                assert(self.entries@[j] == old_es[j]);
                            }
                        }
                        if k == key {
                            assert(self.entries@[n].0@ == key);
                        }
                    }
                    assert forall|k: Seq<char>|
                        #![trigger self.view()[k]]
                        self.view().contains_key(k) implies self.view()[k] == old(
                            self,
                        ).view().insert(key, value)[k] by {
                        let j = choose|j: int|
                            0 <= j < self.entries@.len() && self.entries@[j].0@ == k;
                        lemma_entries_map_at(self.entries@, j);
                        if j < n {
                            assert(self.entries@[j] == old_es[j]);
                            lemma_entries_map_at(old_es, j);
                        }
                    }
                    assert(self.view() =~= old(self).view().insert(key, value));
                }
                None
            },
        }
    }

    /// Drops the state of every UID that is not in `keep`.
    pub fn retain_seen(&mut self, keep: &Vec<String>)
        requires
            old(self).wf(),
        ensures
            final(self).wf(),
            final(self).entries@ == kept_entries(old(self).entries@, seen_set(keep@)),
            final(self).view() == old(self).view().restrict(seen_set(keep@)),
    {
        let ghost seen = seen_set(keep@);
        let ghost old_es = self.entries@;
        let mut kept: Vec<(String, V)> = Vec::new();
        let ghost mut t: int = 0;
        assert(old_es.subrange(0, 0) =~= Seq::<(String, V)>::empty());
        assert(old_es.subrange(0, old_es.len() as int) =~= old_es);
        while self.entries.len() > 0
            invariant
                0 <= t <= old_es.len(),
                self.entries@ == old_es.subrange(t, old_es.len() as int),
                kept@ == kept_entries(old_es.subrange(0, t), seen),
                seen == seen_set(keep@),
            decreases self.entries.len(),
        {
            let (name, value) = self.entries.remove(0);
            let mut found = false;
            let key = chars_of(name.as_str());
            let mut u: usize = 0;
            while u < keep.len()
                invariant
                    u <= keep@.len(),
                    key@ == name@,
                    found == exists|w: int| 0 <= w < u && keep@[w]@ == name@,
                decreases keep.len() - u,
            {
                if !found && chars_eq(&chars_of(keep[u].as_str()), &key) {
                    found = true;
                }
                u += 1;
            }
            proof {
                lemma_seen_set(keep@, name@);
                assert(old_es.subrange(0, t + 1).drop_last() =~= old_es.subrange(0, t));
                assert(old_es.subrange(0, t + 1).last() == old_es[t]);
                assert(old_es[t] == (name, value));
                assert(self.entries@ =~= old_es.subrange(t + 1, old_es.len() as int));
            }
            if found {
                kept.push((name, value));
            }
            proof {
                t = t + 1;
            }
        }
        self.entries = kept;
        proof {
            assert(old_es.subrange(0, t) =~= old_es);
            lemma_kept_entries(old_es, seen);
        }
    }
}

/// The UIDs of `keep`, as a set.
pub open spec fn seen_set(keep: Seq<String>) -> Set<Seq<char>> {
    keep.map_values(|s: String| s@).to_set()
}

pub proof fn lemma_seen_set(keep: Seq<String>, k: Seq<char>)
    ensures
        seen_set(keep).contains(k) <==> exists|w: int| 0 <= w < keep.len() && keep[w]@ == k,
{
    let m = keep.map_values(|s: String| s@);
    if seen_set(keep).contains(k) {
        assert(m.contains(k));
        let w = choose|w: int| 0 <= w < m.len() && m[w] == k;
        assert(keep[w]@ == k);
    }
    if exists|w: int| 0 <= w < keep.len() && keep[w]@ == k {
        let w = choose|w: int| 0 <= w < keep.len() && keep[w]@ == k;
        assert(m[w] == k);
        assert(m.contains(k));
    }
}

/// The entries whose UID is in `seen`, in order.
pub open spec fn kept_entries<V>(es: Seq<(String, V)>, seen: Set<Seq<char>>) -> Seq<(String, V)>
    decreases es.len(),
{
    if es.len() == 0 {
        seq![]
    } else {
        let f = kept_entries(es.drop_last(), seen);
        if seen.contains(es.last().0@) {
            f.push(es.last())
        } else {
            f
        }
    }
}

pub proof fn lemma_kept_members<V>(es: Seq<(String, V)>, seen: Set<Seq<char>>)
    ensures
        forall|a: int|
            0 <= a < kept_entries(es, seen).len() ==> exists|j: int|
                0 <= j < es.len() && #[trigger] kept_entries(es, seen)[a] == es[j] && seen.contains(
                    es[j].0@,
                ),
        forall|j: int|
            0 <= j < es.len() && seen.contains(es[j].0@) ==> exists|a: int|
                0 <= a < kept_entries(es, seen).len() && kept_entries(es, seen)[a] == #[trigger] es[j],
    decreases es.len(),
{
    if es.len() > 0 {
        let d = es.drop_last();
        lemma_kept_members(d, seen);
        let f = kept_entries(d, seen);
        let k = kept_entries(es, seen);
        let last = es[es.len() - 1];
        if seen.contains(last.0@) {
            assert(k == f.push(last));
        } else {
            assert(k == f);
        }
        assert forall|a: int| 0 <= a < k.len() implies exists|j: int|
            0 <= j < es.len() && #[trigger] k[a] == es[j] && seen.contains(es[j].0@) by {
            if a < f.len() {
                assert(k[a] == f[a]);
                let j = choose|j: int| 0 <= j < d.len() && f[a] == d[j] && seen.contains(d[j].0@);
                assert(es[j] == d[j]);
            } else {
                assert(k[a] == last);
                assert(es[es.len() - 1] == last);
            }
        }
        assert forall|j: int| 0 <= j < es.len() && seen.contains(es[j].0@) implies exists|a: int|
            0 <= a < k.len() && k[a] == #[trigger] es[j] by {
            if j < d.len() {
                assert(es[j] == d[j]);
                let a = choose|a: int| 0 <= a < f.len() && f[a] == d[j];
                assert(k[a] == f[a]);
            } else {
                assert(k[k.len() - 1] == es[j]);
            }
        }
    }
}

pub proof fn lemma_kept_unique<V>(es: Seq<(String, V)>, seen: Set<Seq<char>>)
    requires
        keys_unique(es),
    ensures
        keys_unique(kept_entries(es, seen)),
    decreases es.len(),
{
    if es.len() > 0 {
        let d = es.drop_last();
        assert(keys_unique(d)) by {
            assert forall|i: int, j: int|
                0 <= i < d.len() && 0 <= j < d.len() && i != j implies d[i].0@ != d[j].0@ by {
                assert(d[i] == es[i] && d[j] == es[j]);
            }
        }
        lemma_kept_unique(d, seen);
        lemma_kept_members(d, seen);
        let f = kept_entries(d, seen);
        let k = kept_entries(es, seen);
        if seen.contains(es.last().0@) {
            assert forall|a: int, b: int|
                0 <= a < k.len() && 0 <= b < k.len() && a != b implies k[a].0@ != k[b].0@ by {
                if a < f.len() && b < f.len() {
                    assert(k[a] == f[a] && k[b] == f[b]);
                } else if a < f.len() {
                    assert(k[a] == f[a]);
                    let j = choose|j: int| 0 <= j < d.len() && f[a] == d[j] && seen.contains(d[j].0@);
                    assert(k[a] == d[j] && d[j] == es[j]);
                    assert(k[b] == es[es.len() - 1]);
                } else {
                    assert(k[b] == f[b]);
                    let j = choose|j: int| 0 <= j < d.len() && f[b] == d[j] && seen.contains(d[j].0@);
                    assert(k[b] == d[j] && d[j] == es[j]);
                    assert(k[a] == es[es.len() - 1]);
                }
            }
        }
    }
}

/// Keeping the seen entries restricts the map to the seen UIDs.
pub proof fn lemma_kept_entries<V>(es: Seq<(String, V)>, seen: Set<Seq<char>>)
    requires
        keys_unique(es),
    ensures
        keys_unique(kept_entries(es, seen)),
        entries_map(kept_entries(es, seen)) == entries_map(es).restrict(seen),
{
    lemma_kept_unique(es, seen);
    lemma_kept_members(es, seen);
    let k = kept_entries(es, seen);
    assert forall|key: Seq<char>| #[trigger]
        has_key(k, key) == (has_key(es, key) && seen.contains(key)) by {
        if has_key(k, key) {
            let a = choose|a: int| 0 <= a < k.len() && k[a].0@ == key;
            let j = choose|j: int| 0 <= j < es.len() && k[a] == es[j] && seen.contains(es[j].0@);
            assert(es[j].0@ == key);
        }
        if has_key(es, key) && seen.contains(key) {
            let j = choose|j: int| 0 <= j < es.len() && es[j].0@ == key;
            let a = choose|a: int| 0 <= a < k.len() && k[a] == es[j];
            assert(k[a].0@ == key);
        }
    }
    assert forall|key: Seq<char>|
        #![trigger entries_map(k)[key]]
        entries_map(k).contains_key(key) implies entries_map(k)[key] == entries_map(es)[key] by {
        let a = choose|a: int| 0 <= a < k.len() && k[a].0@ == key;
        lemma_entries_map_at(k, a);
        let j = choose|j: int| 0 <= j < es.len() && k[a] == es[j] && seen.contains(es[j].0@);
        lemma_entries_map_at(es, j);
    }
    assert(entries_map(k) =~= entries_map(es).restrict(seen));
}

/// The growth of the three cumulative CPU counters between two samples
/// (a counter that went down counts as no growth).
pub fn counter_deltas(prev: &PodCounters, cur: &PodCounters) -> (r: (u64, u64, u64))
    ensures
        r.0 == if cur.cpu_usage_usec >= prev.cpu_usage_usec {
            cur.cpu_usage_usec - prev.cpu_usage_usec
        } else {
            0
        },
        r.1 == if cur.cpu_nr_periods >= prev.cpu_nr_periods {
            cur.cpu_nr_periods - prev.cpu_nr_periods
        } else {
            0
        },
        r.2 == if cur.cpu_nr_throttled >= prev.cpu_nr_throttled {
            cur.cpu_nr_throttled - prev.cpu_nr_throttled
        } else {
            0
        },
{
    (
        cur.cpu_usage_usec.saturating_sub(prev.cpu_usage_usec),
        cur.cpu_nr_periods.saturating_sub(prev.cpu_nr_periods),
        cur.cpu_nr_throttled.saturating_sub(prev.cpu_nr_throttled),
    )
}

/// The QoS recorded for a pod: the kubelet's class when it reports one,
/// otherwise the class read from the cgroup path.
pub fn effective_qos(reported: &String, from_cgroup: QosClass) -> (r: String)
    ensures
        r@ == if reported@.len() == 0 {
            from_cgroup.name()
        } else {
            reported@
        },
{
    if reported.as_str().is_empty() {
        String::from_str(from_cgroup.as_str())
    } else {
        reported.clone()
    }
}

/// Whether the kubelet metadata must be fetched again: when it was never
/// fetched, when it is at least `meta_interval_secs` old, or when a pod
/// cgroup has no metadata yet.
pub fn meta_refresh_due(fetched_secs_ago: Option<u64>, meta_interval_secs: u64, unknown_uids: bool) -> (r: bool)
    ensures
        r == (unknown_uids || match fetched_secs_ago {
            Some(age) => age >= meta_interval_secs,
            None => true,
        }),
{
    let stale = match fetched_secs_ago {
        Some(age) => age >= meta_interval_secs,
        None => true,
    };
    stale || unknown_uids
}

/// `a - b`, or 0 when `b` is larger.
pub open spec fn sat_diff(a: u64, b: u64) -> u64 {
    if a >= b {
        (a - b) as u64
    } else {
        0
    }
}

/// The value at `k`, if the map has one.
pub open spec fn value_at<V>(m: Map<Seq<char>, V>, k: Seq<char>) -> Option<V> {
    if m.contains_key(k) {
        Some(m[k])
    } else {
        None
    }
}

/// The previous cumulative counters of one pod and when they were read.
pub struct PodPrev<T> {
    pub counters: PodCounters,
    pub at: T,
}

/// What a collection cycle does with one discovered pod.
pub enum PodDecision<T> {
    /// First sighting: a rate needs two samples, so no row yet.
    FirstSample,
    /// The pod cgroup exists but the kubelet does not report it (yet, or anymore).
    NoMetadata,
    /// A usage row is written from the growth of the counters since `since`;
    /// `write_meta` says whether the pod's metadata row is (re)written.
    Report { cpu_usage_usec: u64, periods: u64, throttled: u64, since: T, write_meta: bool },
}

/// The decision for a pod from its previous sample, its new counters, the
/// hash of its kubelet metadata (`None` when the kubelet does not report it)
/// and the hash of its metadata row last written.
pub open spec fn decide_spec<T>(
    prev: Option<PodPrev<T>>,
    cur: PodCounters,
    meta_hash: Option<u64>,
    written: Option<u64>,
) -> PodDecision<T> {
    match prev {
        None => PodDecision::FirstSample,
        Some(p) => match meta_hash {
            None => PodDecision::NoMetadata,
            Some(h) => PodDecision::Report {
                cpu_usage_usec: sat_diff(cur.cpu_usage_usec, p.counters.cpu_usage_usec),
                periods: sat_diff(cur.cpu_nr_periods, p.counters.cpu_nr_periods),
                throttled: sat_diff(cur.cpu_nr_throttled, p.counters.cpu_nr_throttled),
                since: p.at,
                write_meta: written != Some(h),
            },
        },
    }
}

/// The state a collector keeps between cycles: the last sample of every pod
/// (its timestamps of type `T` belong to the caller's clock) and the hash of
/// the metadata row last written for it, so that metadata is only written on
/// change.
pub struct CycleState<T> {
    pub pod_prev: UidMap<PodPrev<T>>,
    pub meta_written: UidMap<u64>,
}

impl<T: Copy> CycleState<T> {
    pub open spec fn wf(&self) -> bool {
        self.pod_prev.wf() && self.meta_written.wf()
    }

    pub fn new() -> (s: Self)
        ensures
            s.wf(),
            s.pod_prev.view() == Map::<Seq<char>, PodPrev<T>>::empty(),
            s.meta_written.view() == Map::<Seq<char>, u64>::empty(),
    {
        CycleState { pod_prev: UidMap::new(), meta_written: UidMap::new() }
    }

    /// Records the new sample of pod `uid` taken at `now` and decides what the
    /// cycle writes for it.
    pub fn observe_pod(&mut self, uid: &String, cur: PodCounters, now: T, meta_hash: Option<u64>) -> (d:
        PodDecision<T>)
        requires
            old(self).wf(),
        ensures
            final(self).wf(),
            d == decide_spec(
                value_at(old(self).pod_prev.view(), uid@),
                cur,
                meta_hash,
                value_at(old(self).meta_written.view(), uid@),
            ),
            final(self).pod_prev.view() == old(self).pod_prev.view().insert(
                uid@,
                PodPrev { counters: cur, at: now },
            ),
            final(self).meta_written.view() == match d {
                PodDecision::Report { write_meta: true, .. } => old(self).meta_written.view().insert(
                    uid@,
                    meta_hash->0,
                ),
                _ => old(self).meta_written.view(),
            },
    {
        let prev = self.pod_prev.insert(uid.clone(), PodPrev { counters: cur, at: now });
        let p = match prev {
            None => {
                return PodDecision::FirstSample;
            },
            Some(p) => p,
        };
        let h = match meta_hash {
            None => {
                return PodDecision::NoMetadata;
            },
            Some(h) => h,
        };
        let (cpu_usage_usec, periods, throttled) = counter_deltas(&p.counters, &cur);
        let unchanged = match self.meta_written.get(uid.as_str()) {
            Some(w) => *w == h,
            None => false,
        };
        if !unchanged {
            self.meta_written.insert(uid.clone(), h);
        }
        PodDecision::Report { cpu_usage_usec, periods, throttled, since: p.at, write_meta: !unchanged }
    }

    /// Drops the state of pods that no longer exist (not among `seen`).
    pub fn finish_cycle(&mut self, seen: &Vec<String>)
        requires
            old(self).wf(),
        ensures
            final(self).wf(),
            final(self).pod_prev.view() == old(self).pod_prev.view().restrict(seen_set(seen@)),
            final(self).meta_written.view() == old(self).meta_written.view().restrict(
                seen_set(seen@),
            ),
    {
        self.pod_prev.retain_seen(seen);
        self.meta_written.retain_seen(seen);
    }
}

/// A pod seen for the first time yields no row, and a pod whose metadata
/// row was written with hash `h` is not written again while its metadata
/// hashes to `h`: rows carry rates, and metadata is only upserted on change.
pub proof fn law_rates_need_two_samples_and_meta_only_on_change<T>(
    cur: PodCounters,
    prev: PodPrev<T>,
    h: u64,
    written: Option<u64>,
)
    ensures
        decide_spec::<T>(None, cur, Some(h), written) == PodDecision::<T>::FirstSample,
        decide_spec(Some(prev), cur, Some(h), Some(h)) matches PodDecision::Report {
            write_meta: false,
            ..
        },
        decide_spec(Some(prev), cur, Some(h), written) matches PodDecision::Report {
            write_meta,
            ..
        } && (write_meta <==> written != Some(h)),
{
}

/// The growth of a node's CPU ticks since the previous reading,
/// `(total, used)`: none on the first reading or when the total did not grow.
pub open spec fn node_delta_spec(prev: Option<CpuTimes>, cur: CpuTimes) -> Option<(u64, u64)> {
    match prev {
        Some(p) => if cur.total_ticks > p.total_ticks {
            Some(((cur.total_ticks - p.total_ticks) as u64, sat_diff(cur.used_ticks, p.used_ticks)))
        } else {
            None
        },
        None => None,
    }
}

/// The growth of a node's CPU ticks since the previous reading; `None` on the
/// first cycle or when the total did not grow.
pub fn node_delta(prev: Option<CpuTimes>, cur: CpuTimes) -> (r: Option<(u64, u64)>)
    ensures
        r == node_delta_spec(prev, cur),
{
    match prev {
        Some(p) => if cur.total_ticks > p.total_ticks {
            Some((cur.total_ticks - p.total_ticks, cur.used_ticks.saturating_sub(p.used_ticks)))
        } else {
            None
        },
        None => None,
    }
}

/// The node's CPU capacity in millicores.
pub fn capacity_millicores(num_cpus: u32) -> (r: u32)
    requires
        num_cpus * 1000 <= u32::MAX,
    ensures
        r == num_cpus * 1000,
{
    num_cpus * 1000
}

} // verus!

//! Node-level CPU and memory from the contents of `/proc/stat` and
//! `/proc/meminfo` (host-global values, visible from any container).

use vstd::prelude::*;
use crate::text::{
    chars_eq, chars_of, lines, lines_of, parse_u64, parse_u64_spec, slice_chars, starts_with,
    tokens, tokens_of, views,
};

verus! {

#[derive(Clone, Copy, Debug, PartialEq, Eq, Structural)]
pub struct CpuTimes {
    pub used_ticks: u64,
    pub total_ticks: u64,
    pub num_cpus: u32,
}

impl CpuTimes {
    pub fn default() -> (r: CpuTimes)
        ensures
            r == (CpuTimes { used_ticks: 0, total_ticks: 0, num_cpus: 0 }),
    {
        CpuTimes { used_ticks: 0, total_ticks: 0, num_cpus: 0 }
    }
}

/// The tokens that parse as `u64`, in order (the others are skipped).
pub open spec fn u64_fields(toks: Seq<Seq<char>>) -> Seq<u64>
    decreases toks.len(),
{
    if toks.len() == 0 {
        seq![]
    } else {
        u64_fields(toks.drop_last()) + match parse_u64_spec(toks.last()) {
            Some(v) => seq![v],
            None => seq![],
        }
    }
}

/// The sum of the fields, unbounded.
pub open spec fn sum_fields(f: Seq<u64>) -> nat
    decreases f.len(),
{
    if f.len() == 0 {
        0
    } else {
        sum_fields(f.drop_last()) + f.last() as nat
    }
}

/// A field by position, 0 when absent.
pub open spec fn field(f: Seq<u64>, i: int) -> nat {
    if 0 <= i < f.len() {
        f[i] as nat
    } else {
        0
    }
}

/// The fields of an aggregate `cpu ` line: user nice system idle iowait ...
pub open spec fn aggregate_fields(line: Seq<char>) -> Seq<u64> {
    u64_fields(tokens(line.subrange("cpu "@.len() as int, line.len() as int)))
}

/// A per-cpu line: it starts with `cpu` but is not the aggregate line.
pub open spec fn is_per_cpu_line(line: Seq<char>) -> bool {
    !"cpu "@.is_prefix_of(line) && "cpu"@.is_prefix_of(line)
}

/// One `/proc/stat` line applied to `(used, total, cpus)`: the aggregate line
/// sets used and total (total minus idle and iowait), a per-cpu line counts.
pub open spec fn cpu_times_step(st: (int, int, int), line: Seq<char>) -> (int, int, int) {
    if "cpu "@.is_prefix_of(line) {
        let f = aggregate_fields(line);
        let total = sum_fields(f) as int;
        let idle = field(f, 3) + field(f, 4);
        (if total >= idle {
            total - idle
        } else {
            0
        }, total, st.2)
    } else if "cpu"@.is_prefix_of(line) {
        (st.0, st.1, st.2 + 1)
    } else {
        st
    }
}

pub open spec fn cpu_times_fold(ls: Seq<Seq<char>>) -> (int, int, int)
    decreases ls.len(),
{
    if ls.len() == 0 {
        (0, 0, 0)
    } else {
        cpu_times_step(cpu_times_fold(ls.drop_last()), ls.last())
    }
}

/// The number of per-cpu lines.
pub open spec fn per_cpu_count(ls: Seq<Seq<char>>) -> nat
    decreases ls.len(),
{
    if ls.len() == 0 {
        0
    } else {
        per_cpu_count(ls.drop_last()) + if is_per_cpu_line(ls.last()) {
            1nat
        } else {
            0
        }
    }
}

/// The sums and the count that `read_cpu_times` computes fit their types.
pub open spec fn cpu_times_fit_spec(content: Seq<char>) -> bool {
    let ls = lines(content);
    &&& forall|i: int|
        0 <= i < ls.len() && "cpu "@.is_prefix_of(ls[i]) ==> sum_fields(aggregate_fields(ls[i]))
            <= u64::MAX
    &&& per_cpu_count(ls) <= u32::MAX
}

pub proof fn lemma_fields_le_sum(f: Seq<u64>, i: int, j: int)
    requires
        i != j,
    ensures
        field(f, i) + field(f, j) <= sum_fields(f),
        field(f, i) <= sum_fields(f),
    decreases f.len(),
{
    if f.len() > 0 {
        let g = f.drop_last();
        lemma_fields_le_sum(g, i, j);
        if 0 <= i < g.len() {
            assert(field(f, i) == field(g, i));
        }
        if 0 <= j < g.len() {
            assert(field(f, j) == field(g, j));
        }
    }
}

pub proof fn lemma_per_cpu_count_prefix(ls: Seq<Seq<char>>, i: int)
    requires
        0 <= i <= ls.len(),
    ensures
        per_cpu_count(ls.subrange(0, i)) <= per_cpu_count(ls),
    decreases ls.len(),
{
    if i < ls.len() {
        assert(ls.drop_last() =~= ls.subrange(0, ls.len() - 1));
        lemma_per_cpu_count_prefix(ls.drop_last(), i);
        assert(ls.drop_last().subrange(0, i) =~= ls.subrange(0, i));
    } else {
        assert(ls.subrange(0, i) =~= ls);
    }
}

fn u64_fields_exec(toks: &Vec<Vec<char>>) -> (r: Vec<u64>)
    ensures
        r@ == u64_fields(views(toks@)),
{
    let mut out: Vec<u64> = Vec::new();
    let mut i: usize = 0;
    while i < toks.len()
        invariant
            i <= toks@.len(),
            out@ == u64_fields(views(toks@).subrange(0, i as int)),
        decreases toks.len() - i,
    {
        assert(views(toks@).subrange(0, i + 1).drop_last() =~= views(toks@).subrange(0, i as int));
        assert(views(toks@).subrange(0, i + 1).last() == toks@[i as int]@);
        match parse_u64(&toks[i]) {
            Some(v) => {
                out.push(v);
            },
            None => {},
        }
        assert(out@ =~= u64_fields(views(toks@).subrange(0, i + 1)));
        i += 1;
    }
    assert(views(toks@).subrange(0, toks@.len() as int) =~= views(toks@));
    out
}

fn sum_checked(f: &Vec<u64>) -> (r: Option<u64>)
    ensures
        match r {
            Some(v) => v == sum_fields(f@),
            None => sum_fields(f@) > u64::MAX,
        },
{
    let mut acc: u64 = 0;
    let mut i: usize = 0;
    while i < f.len()
        invariant
            i <= f@.len(),
            acc == sum_fields(f@.subrange(0, i as int)),
        decreases f.len() - i,
    {
        assert(f@.subrange(0, i + 1).drop_last() =~= f@.subrange(0, i as int));
        if acc > u64::MAX - f[i] {
            proof {
                lemma_sum_prefix_mono(f@, i + 1);
            }
            return None;
        }
        acc = acc + f[i];
        i += 1;
    }
    assert(f@.subrange(0, f@.len() as int) =~= f@);
    Some(acc)
}

pub proof fn lemma_sum_prefix_mono(f: Seq<u64>, i: int)
    requires
        0 <= i <= f.len(),
    ensures
        sum_fields(f.subrange(0, i)) <= sum_fields(f),
    decreases f.len(),
{
    if i < f.len() {
        assert(f.drop_last() =~= f.subrange(0, f.len() - 1));
        lemma_sum_prefix_mono(f.drop_last(), i);
        assert(f.drop_last().subrange(0, i) =~= f.subrange(0, i));
    } else {
        assert(f.subrange(0, i) =~= f);
    }
}

/// Whether `read_cpu_times` can count and sum this `/proc/stat` content
/// without overflow.
pub fn cpu_times_fit(proc_stat: &str) -> (r: bool)
    ensures
        r == cpu_times_fit_spec(proc_stat@),
{
    let chars = chars_of(proc_stat);
    let ls = lines_of(&chars);
    let agg = chars_of("cpu ");
    let cpu = chars_of("cpu");
    let ghost all = lines(proc_stat@);
    let mut count: u64 = 0;
    let mut i: usize = 0;
    while i < ls.len()
        invariant
            i <= ls@.len(),
            views(ls@) == all,
            all == lines(proc_stat@),
            agg@ == "cpu "@,
            cpu@ == "cpu"@,
            forall|k: int|
                0 <= k < i && "cpu "@.is_prefix_of(all[k]) ==> sum_fields(aggregate_fields(all[k]))
                    <= u64::MAX,
            count == per_cpu_count(all.subrange(0, i as int)),
            count <= u32::MAX,
        decreases ls.len() - i,
    {
        let line = &ls[i];
        assert(all[i as int] == line@);
        assert(all.subrange(0, i + 1).drop_last() =~= all.subrange(0, i as int));
        if starts_with(line, &agg) {
            let rest = slice_chars(line, agg.len(), line.len());
            let toks = tokens_of(&rest);
            let f = u64_fields_exec(&toks);
            if sum_checked(&f).is_none() {
                return false;
            }
        } else if starts_with(line, &cpu) {
            if count == u32::MAX as u64 {
                proof {
                    lemma_per_cpu_count_prefix(all, i + 1);
                }
                return false;
            }
            count = count + 1;
        }
        i += 1;
    }
    assert(all.subrange(0, all.len() as int) =~= all);
    true
}

/// Parses /proc/stat: aggregate cpu line + counts per-cpu lines.
pub fn read_cpu_times(proc_stat: &str) -> (times: CpuTimes)
    requires
        cpu_times_fit_spec(proc_stat@),
    ensures
        ({
            let st = cpu_times_fold(lines(proc_stat@));
            times.used_ticks == st.0 && times.total_ticks == st.1 && times.num_cpus == st.2
        }),
{
    let chars = chars_of(proc_stat);
    let ls = lines_of(&chars);
    let agg = chars_of("cpu ");
    let cpu = chars_of("cpu");
    let ghost all = lines(proc_stat@);
    let mut times = CpuTimes::default();
    let mut i: usize = 0;
    while i < ls.len()
        invariant
            i <= ls@.len(),
            views(ls@) == all,
            all == lines(proc_stat@),
            cpu_times_fit_spec(proc_stat@),
            agg@ == "cpu "@,
            cpu@ == "cpu"@,
            ({
                let st = cpu_times_fold(all.subrange(0, i as int));
                times.used_ticks == st.0 && times.total_ticks == st.1 && times.num_cpus == st.2
            }),
            times.num_cpus == per_cpu_count(all.subrange(0, i as int)),
        decreases ls.len() - i,
    {
        let line = &ls[i];
        assert(all[i as int] == line@);
        assert(all.subrange(0, i + 1).drop_last() =~= all.subrange(0, i as int));
        if starts_with(line, &agg) {
            let rest = slice_chars(line, agg.len(), line.len());
            let toks = tokens_of(&rest);
            let f = u64_fields_exec(&toks);
            let total = match sum_checked(&f) {
                Some(t) => t,
                None => {
                    assert(false);
                    0
                },
            };
            proof {
                lemma_fields_le_sum(f@, 3, 4);
            }
            let f3 = if f.len() > 3 {
                f[3]
            } else {
                0
            };
            let f4 = if f.len() > 4 {
                f[4]
            } else {
                0
            };
            let idle = f3 + f4;
            times.total_ticks = total;
            times.used_ticks = total.saturating_sub(idle);
        } else if starts_with(line, &cpu) {
            proof {
                lemma_per_cpu_count_prefix(all, i + 1);
            }
            times.num_cpus = times.num_cpus + 1;
        }
        i += 1;
    }
    assert(all.subrange(0, all.len() as int) =~= all);
    times
}

// ---------------------------------------------------------------------------
// Memory
// ---------------------------------------------------------------------------

#[derive(Clone, Copy, Debug, PartialEq, Eq, Structural)]
pub struct MemInfo {
    pub total_bytes: u64,
    pub used_bytes: u64,
}

/// The value after a key token: the second token parsed, 0 when absent or unparsable.
pub open spec fn value_after_key(t: Seq<Seq<char>>) -> u64 {
    if t.len() >= 2 {
        match parse_u64_spec(t[1]) {
            Some(v) => v,
            None => 0,
        }
    } else {
        0
    }
}

/// One `/proc/meminfo` line applied to `(total_kib, available_kib)`.
pub open spec fn meminfo_step(st: (u64, u64), line: Seq<char>) -> (u64, u64) {
    let t = tokens(line);
    if t.len() >= 1 && t[0] == "MemTotal:"@ {
        (value_after_key(t), st.1)
    } else if t.len() >= 1 && t[0] == "MemAvailable:"@ {
        (st.0, value_after_key(t))
    } else {
        st
    }
}

pub open spec fn meminfo_fold(ls: Seq<Seq<char>>) -> (u64, u64)
    decreases ls.len(),
{
    if ls.len() == 0 {
        (0, 0)
    } else {
        meminfo_step(meminfo_fold(ls.drop_last()), ls.last())
    }
}

fn value_after_key_exec(t: &Vec<Vec<char>>) -> (r: u64)
    ensures
        r == value_after_key(views(t@)),
{
    if t.len() >= 2 {
        assert(views(t@)[1] == t@[1]@);
        match parse_u64(&t[1]) {
            Some(v) => v,
            None => 0,
        }
    } else {
        0
    }
}

fn meminfo_kib(content: &str) -> (r: (u64, u64))
    ensures
        r == meminfo_fold(lines(content@)),
{
    let chars = chars_of(content);
    let ls = lines_of(&chars);
    let total_key = chars_of("MemTotal:");
    let avail_key = chars_of("MemAvailable:");
    let ghost all = lines(content@);
    let mut st: (u64, u64) = (0, 0);
    let mut i: usize = 0;
    while i < ls.len()
        invariant
            i <= ls@.len(),
            views(ls@) == all,
            all == lines(content@),
            total_key@ == "MemTotal:"@,
            avail_key@ == "MemAvailable:"@,
            st == meminfo_fold(all.subrange(0, i as int)),
        decreases ls.len() - i,
    {
        assert(all[i as int] == ls@[i as int]@);
        assert(all.subrange(0, i + 1).drop_last() =~= all.subrange(0, i as int));
        let t = tokens_of(&ls[i]);
        if t.len() >= 1 {
            assert(views(t@)[0] == t@[0]@);
            if chars_eq(&t[0], &total_key) {
                st = (value_after_key_exec(&t), st.1);
            } else if chars_eq(&t[0], &avail_key) {
                st = (st.0, value_after_key_exec(&t));
            }
        }
        i += 1;
    }
    assert(all.subrange(0, all.len() as int) =~= all);
    st
}

/// Parses /proc/meminfo; used = MemTotal - MemAvailable.
pub fn read_meminfo(content: &str) -> (m: MemInfo)
    requires
        meminfo_fold(lines(content@)).0 * 1024 <= u64::MAX,
    ensures
        ({
            let (total, available) = meminfo_fold(lines(content@));
            m.total_bytes == total * 1024 && m.used_bytes == (if total >= available {
                total - available
            } else {
                0
            }) * 1024
        }),
{
    let (total, available) = meminfo_kib(content);
    MemInfo { total_bytes: total * 1024, used_bytes: total.saturating_sub(available) * 1024 }
}

/// Whether `read_meminfo` can scale this content's total to bytes without overflow.
pub fn meminfo_fits(content: &str) -> (r: bool)
    ensures
        r == (meminfo_fold(lines(content@)).0 * 1024 <= u64::MAX),
{
    let (total, _) = meminfo_kib(content);
    total <= u64::MAX / 1024
}

} // verus!

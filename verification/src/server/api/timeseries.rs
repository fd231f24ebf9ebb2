//! Scoped time series (cluster / namespace / workload) for detail pages, and
//! batched sparkline series for table rows: the bucket choice, the query
//! text, and the grouping of the returned points into series.

use vstd::prelude::*;
use crate::text::{
    chars_eq, chars_of, contains_seq, decimal, lemma_contains_after_prefix, lemma_prefix_of_concat,
    lemma_prefix_trans, push_all, push_decimal, push_str, string_of,
};
use crate::server::api::{choose_bucket, choose_bucket_spec, sat_sub, scope_filter, scope_filter_spec, RangeQuery};

verus! {

/// Query parameters of the sparkline endpoint.
pub struct SparklineQuery {
    pub from: Option<u32>,
    pub to: Option<u32>,
    /// "namespace" (default) or "workload" (requires namespace)
    pub entity: Option<String>,
    pub namespace: Option<String>,
}

/// `x` rounded down to a multiple of `step`.
pub open spec fn floor_to(x: u32, step: u32) -> int {
    (x / step) * step
}

/// The aligned window `[from, to)` for a bucket size: `from` rounded down,
/// `to` rounded down but at least one bucket after `from`.
pub open spec fn aligned_spec(from: u32, to: u32, step: u32) -> (u32, u32) {
    let f = floor_to(from, step);
    let t = floor_to(to, step);
    (f as u32, if t >= f + step {
        t as u32
    } else {
        (f + step) as u32
    })
}

/// Aligning fits in `u32`.
pub open spec fn aligned_fits(from: u32, step: u32) -> bool {
    step > 0 && floor_to(from, step) + step <= u32::MAX
}

/// Every plotted point covers a whole bucket: the aligned window starts and
/// ends on bucket boundaries, starts at most one bucket before `from`, is at
/// least one bucket long, and ends no later than `to` unless it is exactly
/// one bucket long.
pub proof fn law_aligned_window_whole_buckets(from: u32, to: u32, step: u32)
    requires
        aligned_fits(from, step),
    ensures
        ({
            let (f, t) = aligned_spec(from, to, step);
            &&& f % step == 0
            &&& t % step == 0
            &&& f <= from < f + step
            &&& t >= f + step
            &&& (t <= to || t == f + step)
        }),
{
    let f = floor_to(from, step);
    let g = floor_to(to, step);
    assert(f % (step as int) == 0 && f <= from < f + step) by (nonlinear_arith)
        requires
            f == (from / step) * step,
            step > 0,
    ;
    assert(g % (step as int) == 0 && g <= to) by (nonlinear_arith)
        requires
            g == (to / step) * step,
            step > 0,
    ;
    assert((f + step) % (step as int) == 0) by (nonlinear_arith)
        requires
            f % (step as int) == 0,
            step > 0,
    ;
}

/// Aligns a window to whole buckets, excluding the in-progress bucket.
pub fn align_window(from: u32, to: u32, step: u32) -> (r: (u32, u32))
    requires
        aligned_fits(from, step),
    ensures
        r == aligned_spec(from, to, step),
{
    assert((from / step) * step <= from) by (nonlinear_arith)
        requires
            step > 0,
    ;
    assert((to / step) * step <= to) by (nonlinear_arith)
        requires
            step > 0,
    ;
    let f = from / step * step;
    let t = to / step * step;
    (f, if t >= f + step {
        t
    } else {
        f + step
    })
}

/// Whether `align_window` can align from `from` with this bucket size.
pub fn align_fits(from: u32, step: u32) -> (r: bool)
    ensures
        r == aligned_fits(from, step),
{
    if step == 0 {
        return false;
    }
    assert((from / step) * step <= from) by (nonlinear_arith)
        requires
            step > 0,
    ;
    let f = from / step * step;
    f <= u32::MAX - step
}

// ---------------------------------------------------------------------------
// Scoped time series
// ---------------------------------------------------------------------------

/// The bucket size of a scoped series and which table serves it:
/// `(step, raw, daily)`. Beyond ten days the daily rollup gives one point a day.
pub open spec fn series_step_spec(from: u32, to: u32) -> (u32, bool, bool) {
    let (step, raw) = choose_bucket_spec(from, to);
    let daily = sat_sub(to, from) > 10 * 86400;
    (if daily {
        86400
    } else {
        step
    }, raw, daily)
}

pub fn series_step(from: u32, to: u32) -> (r: (u32, bool, bool))
    ensures
        r == series_step_spec(from, to),
        r.0 > 0,
{
    let (step, raw) = choose_bucket(from, to);
    let daily = to.saturating_sub(from) > 10 * 24 * 3600;
    (if daily {
        24 * 3600
    } else {
        step
    }, raw, daily)
}

/// The query text of a scoped series.
pub open spec fn series_sql_spec(step: u32, raw: bool, daily: bool, scope: Seq<char>) -> Seq<char> {
    let s = decimal(step as nat);
    if daily {
        "SELECT toDateTime(day) AS t, sum(cpu_core_secs)*1000/"@ + s
            + " AS cpu_usage, sum(cpu_request_core_secs)*1000/"@ + s
            + " AS cpu_request, sum(cpu_limit_core_secs)*1000/"@ + s
            + " AS cpu_limit, sum(mem_ws_byte_secs)/"@ + s + " AS mem_ws, sum(mem_request_byte_secs)/"@
            + s + " AS mem_request, sum(mem_limit_byte_secs)/"@ + s
            + " AS mem_limit FROM pod_usage_1d WHERE day >= toDate(toDateTime(?)) AND day < toDate(toDateTime(?))"@
            + scope + " GROUP BY t ORDER BY t"@
    } else if raw {
        "SELECT toStartOfInterval(ts, INTERVAL "@ + s
            + " SECOND) AS t, sum(cpu_usage_millicores * sample_secs)/"@ + s
            + " AS cpu_usage, sum(cpu_request_millicores * sample_secs)/"@ + s
            + " AS cpu_request, sum(cpu_limit_millicores * sample_secs)/"@ + s
            + " AS cpu_limit, sum(mem_working_set_bytes * sample_secs)/"@ + s
            + " AS mem_ws, sum(mem_request_bytes * sample_secs)/"@ + s
            + " AS mem_request, sum(mem_limit_bytes * sample_secs)/"@ + s
            + " AS mem_limit FROM pod_usage WHERE ts >= toDateTime(?) AND ts < toDateTime(?)"@
            + scope + " GROUP BY t ORDER BY t"@
    } else {
        "SELECT toStartOfInterval(hour, INTERVAL "@ + s + " SECOND) AS t, sum(cpu_core_secs)*1000/"@
            + s + " AS cpu_usage, sum(cpu_request_core_secs)*1000/"@ + s
            + " AS cpu_request, sum(cpu_limit_core_secs)*1000/"@ + s
            + " AS cpu_limit, sum(mem_ws_byte_secs)/"@ + s + " AS mem_ws, sum(mem_request_byte_secs)/"@
            + s + " AS mem_request, sum(mem_limit_byte_secs)/"@ + s
            + " AS mem_limit FROM pod_usage_1h WHERE hour >= toDateTime(?) AND hour < toDateTime(?)"@
            + scope + " GROUP BY t ORDER BY t"@
    }
}

/// The CPU columns of a query over the hourly or daily rollup: usage,
/// request and limit, each the sum of its core-seconds times 1000 over the
/// bucket, so all three are in millicores.
pub open spec fn rollup_cpu_columns(s: Seq<char>) -> Seq<char> {
    "sum(cpu_core_secs)*1000/"@ + s + " AS cpu_usage, "@ + "sum(cpu_request_core_secs)*1000/"@ + s
        + " AS cpu_request, "@ + "sum(cpu_limit_core_secs)*1000/"@ + s + " AS cpu_limit"@
}

/// The CPU columns of a query over the raw samples: usage, request and limit,
/// each the sum of its millicores times the sample's seconds over the bucket.
pub open spec fn raw_cpu_columns(s: Seq<char>) -> Seq<char> {
    "sum(cpu_usage_millicores * sample_secs)/"@ + s + " AS cpu_usage, "@
        + "sum(cpu_request_millicores * sample_secs)/"@ + s + " AS cpu_request, "@
        + "sum(cpu_limit_millicores * sample_secs)/"@ + s + " AS cpu_limit"@
}

/// In every branch of a scoped series the CPU usage is in millicores, scaled
/// as the request and the limit beside it: over a rollup it is the
/// core-seconds times 1000 over the bucket of `step` seconds, over the raw
/// samples the millicore-seconds over the bucket.
pub proof fn law_series_cpu_in_millicores(step: u32, raw: bool, daily: bool, scope: Seq<char>)
    ensures
        daily || !raw ==> contains_seq(
            series_sql_spec(step, raw, daily, scope),
            rollup_cpu_columns(decimal(step as nat)),
        ),
        !daily && raw ==> contains_seq(
            series_sql_spec(step, raw, daily, scope),
            raw_cpu_columns(decimal(step as nat)),
        ),
{
    let s = decimal(step as nat);
    let text = series_sql_spec(step, raw, daily, scope);
    reveal_strlit(" AS cpu_usage, sum(cpu_request_core_secs)*1000/");
    reveal_strlit(" AS cpu_usage, ");
    reveal_strlit("sum(cpu_request_core_secs)*1000/");
    reveal_strlit(" AS cpu_request, sum(cpu_limit_core_secs)*1000/");
    reveal_strlit(" AS cpu_request, ");
    reveal_strlit("sum(cpu_limit_core_secs)*1000/");
    reveal_strlit(" AS cpu_limit, sum(mem_ws_byte_secs)/");
    reveal_strlit(" AS cpu_limit");
    reveal_strlit(", sum(mem_ws_byte_secs)/");
    reveal_strlit("sum(cpu_core_secs)*1000/");
    let l3 = " AS cpu_usage, sum(cpu_request_core_secs)*1000/"@;
    let l4 = " AS cpu_request, sum(cpu_limit_core_secs)*1000/"@;
    let l5 = " AS cpu_limit, sum(mem_ws_byte_secs)/"@;
    assert(l3 =~= " AS cpu_usage, "@ + "sum(cpu_request_core_secs)*1000/"@);
    assert(l4 =~= " AS cpu_request, "@ + "sum(cpu_limit_core_secs)*1000/"@);
    assert(l5 =~= " AS cpu_limit"@ + ", sum(mem_ws_byte_secs)/"@);
    if daily {
        let l2 = "SELECT toDateTime(day) AS t, sum(cpu_core_secs)*1000/"@;
        let a = "SELECT toDateTime(day) AS t, "@;
        reveal_strlit("SELECT toDateTime(day) AS t, sum(cpu_core_secs)*1000/");
        reveal_strlit("SELECT toDateTime(day) AS t, ");
        assert(l2 =~= a + "sum(cpu_core_secs)*1000/"@);
        let y = l2 + s + l3 + s + l4 + s + l5;
        let p = rollup_cpu_columns(s);
        assert((a + p) + ", sum(mem_ws_byte_secs)/"@ =~= y);
        lemma_prefix_of_concat(a + p, ", sum(mem_ws_byte_secs)/"@);
        assert(y.is_prefix_of(text));
        lemma_prefix_trans(a + p, y, text);
        lemma_contains_after_prefix(a, p, text);
    } else if raw {
        reveal_strlit(" SECOND) AS t, sum(cpu_usage_millicores * sample_secs)/");
        reveal_strlit(" SECOND) AS t, ");
        reveal_strlit("sum(cpu_usage_millicores * sample_secs)/");
        reveal_strlit(" AS cpu_usage, sum(cpu_request_millicores * sample_secs)/");
        reveal_strlit("sum(cpu_request_millicores * sample_secs)/");
        reveal_strlit(" AS cpu_request, sum(cpu_limit_millicores * sample_secs)/");
        reveal_strlit("sum(cpu_limit_millicores * sample_secs)/");
        reveal_strlit(" AS cpu_limit, sum(mem_working_set_bytes * sample_secs)/");
        reveal_strlit(", sum(mem_working_set_bytes * sample_secs)/");
        let l1 = "SELECT toStartOfInterval(ts, INTERVAL "@;
        let m2 = " SECOND) AS t, sum(cpu_usage_millicores * sample_secs)/"@;
        let m3 = " AS cpu_usage, sum(cpu_request_millicores * sample_secs)/"@;
        let m4 = " AS cpu_request, sum(cpu_limit_millicores * sample_secs)/"@;
        let m5 = " AS cpu_limit, sum(mem_working_set_bytes * sample_secs)/"@;
        assert(m2 =~= " SECOND) AS t, "@ + "sum(cpu_usage_millicores * sample_secs)/"@);
        assert(m3 =~= " AS cpu_usage, "@ + "sum(cpu_request_millicores * sample_secs)/"@);
        assert(m4 =~= " AS cpu_request, "@ + "sum(cpu_limit_millicores * sample_secs)/"@);
        assert(m5 =~= " AS cpu_limit"@ + ", sum(mem_working_set_bytes * sample_secs)/"@);
        let a = l1 + s + " SECOND) AS t, "@;
        let y = l1 + s + m2 + s + m3 + s + m4 + s + m5;
        let p = raw_cpu_columns(s);
        assert((a + p) + ", sum(mem_working_set_bytes * sample_secs)/"@ =~= y);
        lemma_prefix_of_concat(a + p, ", sum(mem_working_set_bytes * sample_secs)/"@);
        assert(y.is_prefix_of(text));
        lemma_prefix_trans(a + p, y, text);
        lemma_contains_after_prefix(a, p, text);
    } else {
        reveal_strlit(" SECOND) AS t, sum(cpu_core_secs)*1000/");
        reveal_strlit(" SECOND) AS t, ");
        let l1 = "SELECT toStartOfInterval(hour, INTERVAL "@;
        let l2 = " SECOND) AS t, sum(cpu_core_secs)*1000/"@;
        assert(l2 =~= " SECOND) AS t, "@ + "sum(cpu_core_secs)*1000/"@);
        let a = l1 + s + " SECOND) AS t, "@;
        let y = l1 + s + l2 + s + l3 + s + l4 + s + l5;
        let p = rollup_cpu_columns(s);
        assert((a + p) + ", sum(mem_ws_byte_secs)/"@ =~= y);
        lemma_prefix_of_concat(a + p, ", sum(mem_ws_byte_secs)/"@);
        assert(y.is_prefix_of(text));
        lemma_prefix_trans(a + p, y, text);
        lemma_contains_after_prefix(a, p, text);
    }
}

/// Everything a scoped series query needs: bucket size, aligned window,
/// query text and the scope's bind values (after the two times).
pub struct SeriesPlan {
    pub step: u32,
    pub from: u32,
    pub to: u32,
    pub sql: String,
    pub binds: Vec<String>,
}

/// Plans the scoped time series for the range `[from, to)` of a query.
pub fn plan_series(query: &RangeQuery, from: u32, to: u32) -> (p: SeriesPlan)
    requires
        aligned_fits(from, series_step_spec(from, to).0),
    ensures
        ({
            let (step, raw, daily) = series_step_spec(from, to);
            let (sql_scope, binds) = scope_filter_spec(*query);
            &&& p.step == step
            &&& (p.from, p.to) == aligned_spec(from, to, step)
            &&& p.sql@ == series_sql_spec(step, raw, daily, sql_scope)
            &&& p.binds@.map_values(|b: String| b@) == binds
        }),
{
    let (step, raw, daily) = series_step(from, to);
    let (f, t) = align_window(from, to, step);
    let (scope, binds) = scope_filter(query);
    let scope_chars = chars_of(scope.as_str());
    let mut out: Vec<char> = Vec::new();
    let ghost s = decimal(step as nat);
    if daily {
        push_str(&mut out, "SELECT toDateTime(day) AS t, sum(cpu_core_secs)*1000/");
        push_decimal(&mut out, step as u64);
        push_str(&mut out, " AS cpu_usage, sum(cpu_request_core_secs)*1000/");
        push_decimal(&mut out, step as u64);
        push_str(&mut out, " AS cpu_request, sum(cpu_limit_core_secs)*1000/");
        push_decimal(&mut out, step as u64);
        push_str(&mut out, " AS cpu_limit, sum(mem_ws_byte_secs)/");
        push_decimal(&mut out, step as u64);
        push_str(&mut out, " AS mem_ws, sum(mem_request_byte_secs)/");
        push_decimal(&mut out, step as u64);
        push_str(&mut out, " AS mem_request, sum(mem_limit_byte_secs)/");
        push_decimal(&mut out, step as u64);
        push_str(
            &mut out,
            " AS mem_limit FROM pod_usage_1d WHERE day >= toDate(toDateTime(?)) AND day < toDate(toDateTime(?))",
        );
    } else if raw {
        push_str(&mut out, "SELECT toStartOfInterval(ts, INTERVAL ");
        push_decimal(&mut out, step as u64);
        push_str(&mut out, " SECOND) AS t, sum(cpu_usage_millicores * sample_secs)/");
        push_decimal(&mut out, step as u64);
        push_str(&mut out, " AS cpu_usage, sum(cpu_request_millicores * sample_secs)/");
        push_decimal(&mut out, step as u64);
        push_str(&mut out, " AS cpu_request, sum(cpu_limit_millicores * sample_secs)/");
        push_decimal(&mut out, step as u64);
        push_str(&mut out, " AS cpu_limit, sum(mem_working_set_bytes * sample_secs)/");
        push_decimal(&mut out, step as u64);
        push_str(&mut out, " AS mem_ws, sum(mem_request_bytes * sample_secs)/");
        push_decimal(&mut out, step as u64);
        push_str(&mut out, " AS mem_request, sum(mem_limit_bytes * sample_secs)/");
        push_decimal(&mut out, step as u64);
        push_str(
            &mut out,
            " AS mem_limit FROM pod_usage WHERE ts >= toDateTime(?) AND ts < toDateTime(?)",
        );
    } else {
        push_str(&mut out, "SELECT toStartOfInterval(hour, INTERVAL ");
        push_decimal(&mut out, step as u64);
        push_str(&mut out, " SECOND) AS t, sum(cpu_core_secs)*1000/");
        push_decimal(&mut out, step as u64);
        push_str(&mut out, " AS cpu_usage, sum(cpu_request_core_secs)*1000/");
        push_decimal(&mut out, step as u64);
        push_str(&mut out, " AS cpu_request, sum(cpu_limit_core_secs)*1000/");
        push_decimal(&mut out, step as u64);
        push_str(&mut out, " AS cpu_limit, sum(mem_ws_byte_secs)/");
        push_decimal(&mut out, step as u64);
        push_str(&mut out, " AS mem_ws, sum(mem_request_byte_secs)/");
        push_decimal(&mut out, step as u64);
        push_str(&mut out, " AS mem_request, sum(mem_limit_byte_secs)/");
        push_decimal(&mut out, step as u64);
        push_str(
            &mut out,
            " AS mem_limit FROM pod_usage_1h WHERE hour >= toDateTime(?) AND hour < toDateTime(?)",
        );
    }
    push_all(&mut out, &scope_chars);
    push_str(&mut out, " GROUP BY t ORDER BY t");
    assert(out@ =~= series_sql_spec(step, raw, daily, scope@));
    SeriesPlan { step, from: f, to: t, sql: string_of(&out), binds }
}

// ---------------------------------------------------------------------------
// Sparklines
// ---------------------------------------------------------------------------

/// About 24 points per sparkline, buckets of at least a minute.
pub open spec fn sparkline_step_spec(from: u32, to: u32) -> u32 {
    let per = sat_sub(to, from) / 24;
    if per >= 60 {
        per as u32
    } else {
        60
    }
}

pub fn sparkline_step(from: u32, to: u32) -> (r: u32)
    ensures
        r == sparkline_step_spec(from, to),
        r >= 60,
{
    let per = to.saturating_sub(from) / 24;
    if per >= 60 {
        per
    } else {
        60
    }
}

/// Whether the sparklines are per workload (`entity=workload`) rather than per namespace.
pub open spec fn by_workload_spec(q: SparklineQuery) -> bool {
    match q.entity {
        Some(e) => e@ == "workload"@,
        None => false,
    }
}

/// The query text of the sparklines over the aligned window `[from, to)`.
pub open spec fn sparkline_sql_spec(by_workload: bool, step: u32, from: u32, to: u32) -> Seq<char> {
    let key_col = if by_workload {
        "workload_name"@
    } else {
        "namespace"@
    };
    let raw = sat_sub(to, from) <= 48 * 3600;
    let table = if raw {
        "pod_usage"@
    } else {
        "pod_usage_1h"@
    };
    let tcol = if raw {
        "ts"@
    } else {
        "hour"@
    };
    let factor = if raw {
        "cpu_usage_millicores * sample_secs"@
    } else {
        "cpu_core_secs * 1000"@
    };
    let ns_filter = if by_workload {
        " AND namespace = ?"@
    } else {
        Seq::<char>::empty()
    };
    let s = decimal(step as nat);
    "SELECT "@ + key_col + " AS key, toStartOfInterval("@ + tcol + ", INTERVAL "@ + s
        + " SECOND) AS t, sum("@ + factor + ")/"@ + s + " AS cpu FROM "@ + table + " WHERE "@ + tcol
        + " >= toDateTime(?) AND "@ + tcol + " < toDateTime(?)"@ + ns_filter
        + " GROUP BY key, t ORDER BY key, t"@
}

/// The sparklines are keyed by workload name within the requested namespace
/// when `entity=workload`, and by namespace otherwise; windows of at most 48
/// hours read the raw samples (`ts`), longer ones the hourly rollup (`hour`).
pub proof fn law_sparkline_key_and_table(by_workload: bool, step: u32, from: u32, to: u32)
    ensures
        ({
            let text = sparkline_sql_spec(by_workload, step, from, to);
            let key = if by_workload {
                "workload_name"@
            } else {
                "namespace"@
            };
            let source = if sat_sub(to, from) <= 48 * 3600 {
                " AS cpu FROM "@ + "pod_usage"@ + " WHERE "@ + "ts"@
            } else {
                " AS cpu FROM "@ + "pod_usage_1h"@ + " WHERE "@ + "hour"@
            };
            &&& ("SELECT "@ + key + " AS key, toStartOfInterval("@).is_prefix_of(text)
            &&& contains_seq(text, source)
            &&& by_workload ==> contains_seq(text, " AND namespace = ?"@)
        }),
{
    let key_col = if by_workload {
        "workload_name"@
    } else {
        "namespace"@
    };
    let raw = sat_sub(to, from) <= 48 * 3600;
    let table = if raw {
        "pod_usage"@
    } else {
        "pod_usage_1h"@
    };
    let tcol = if raw {
        "ts"@
    } else {
        "hour"@
    };
    let factor = if raw {
        "cpu_usage_millicores * sample_secs"@
    } else {
        "cpu_core_secs * 1000"@
    };
    let ns_filter = if by_workload {
        " AND namespace = ?"@
    } else {
        Seq::<char>::empty()
    };
    let s = decimal(step as nat);
    let text = sparkline_sql_spec(by_workload, step, from, to);
    let head = "SELECT "@ + key_col + " AS key, toStartOfInterval("@;
    let a = head + tcol + ", INTERVAL "@ + s + " SECOND) AS t, sum("@ + factor + ")/"@ + s;
    let p = " AS cpu FROM "@ + table + " WHERE "@ + tcol;
    let y = a + " AS cpu FROM "@ + table + " WHERE "@ + tcol;
    let z = y + " >= toDateTime(?) AND "@ + tcol + " < toDateTime(?)"@;
    let rest = " GROUP BY key, t ORDER BY key, t"@;
    assert(text =~= z + ns_filter + rest);
    lemma_prefix_of_concat(head, text.subrange(head.len() as int, text.len() as int));
    assert(head + text.subrange(head.len() as int, text.len() as int) =~= text);
    assert(a + p =~= y);
    lemma_prefix_of_concat(y, text.subrange(y.len() as int, text.len() as int));
    assert(y + text.subrange(y.len() as int, text.len() as int) =~= text);
    lemma_contains_after_prefix(a, p, text);
    if by_workload {
        lemma_prefix_of_concat(z + ns_filter, rest);
        lemma_contains_after_prefix(z, ns_filter, text);
    }
}

/// Everything the sparkline query needs; `namespace` is bound after the
/// two times when the series are per workload.
pub struct SparklinePlan {
    pub step: u32,
    pub from: u32,
    pub to: u32,
    pub sql: String,
    pub namespace: Option<String>,
}

/// Plans the sparkline query for the range `[from, to)`.
pub fn plan_sparklines(query: &SparklineQuery, from: u32, to: u32) -> (p: SparklinePlan)
    requires
        aligned_fits(from, sparkline_step_spec(from, to)),
    ensures
        ({
            let step = sparkline_step_spec(from, to);
            let (f, t) = aligned_spec(from, to, step);
            let w = by_workload_spec(*query);
            &&& p.step == step
            &&& p.from == f
            &&& p.to == t
            &&& p.sql@ == sparkline_sql_spec(w, step, f, t)
            &&& w ==> (p.namespace matches Some(ns) && ns@ == match query.namespace {
                Some(n) => n@,
                None => Seq::<char>::empty(),
            })
            &&& !w ==> p.namespace is None
        }),
{
    let step = sparkline_step(from, to);
    let (f, t) = align_window(from, to, step);
    let by_workload = match &query.entity {
        Some(e) => chars_eq(&chars_of(e.as_str()), &chars_of("workload")),
        None => false,
    };
    let raw = t.saturating_sub(f) <= 48 * 3600;
    let mut out: Vec<char> = Vec::new();
    push_str(&mut out, "SELECT ");
    push_str(&mut out, if by_workload { "workload_name" } else { "namespace" });
    push_str(&mut out, " AS key, toStartOfInterval(");
    push_str(&mut out, if raw { "ts" } else { "hour" });
    push_str(&mut out, ", INTERVAL ");
    push_decimal(&mut out, step as u64);
    push_str(&mut out, " SECOND) AS t, sum(");
    push_str(&mut out, if raw { "cpu_usage_millicores * sample_secs" } else { "cpu_core_secs * 1000" });
    push_str(&mut out, ")/");
    push_decimal(&mut out, step as u64);
    push_str(&mut out, " AS cpu FROM ");
    push_str(&mut out, if raw { "pod_usage" } else { "pod_usage_1h" });
    push_str(&mut out, " WHERE ");
    push_str(&mut out, if raw { "ts" } else { "hour" });
    push_str(&mut out, " >= toDateTime(?) AND ");
    push_str(&mut out, if raw { "ts" } else { "hour" });
    push_str(&mut out, " < toDateTime(?)");
    if by_workload {
        push_str(&mut out, " AND namespace = ?");
    }
    push_str(&mut out, " GROUP BY key, t ORDER BY key, t");
    assert(out@ =~= sparkline_sql_spec(by_workload, step, f, t));
    let namespace = if by_workload {
        Some(
            match &query.namespace {
                Some(n) => n.clone(),
                None => String::new(),
            },
        )
    } else {
        None
    };
    SparklinePlan { step, from: f, to: t, sql: string_of(&out), namespace }
}

// ---------------------------------------------------------------------------
// Grouping points into series
// ---------------------------------------------------------------------------

/// The distinct keys of the points, in order of first appearance.
pub open spec fn keys_in_order<V>(pts: Seq<(String, u32, V)>) -> Seq<Seq<char>>
    decreases pts.len(),
{
    if pts.len() == 0 {
        seq![]
    } else {
        let ks = keys_in_order(pts.drop_last());
        if ks.contains(pts.last().0@) {
            ks
        } else {
            ks.push(pts.last().0@)
        }
    }
}

/// The times of the points with key `k`, in order.
pub open spec fn times_of<V>(pts: Seq<(String, u32, V)>, k: Seq<char>) -> Seq<u32>
    decreases pts.len(),
{
    if pts.len() == 0 {
        seq![]
    } else {
        times_of(pts.drop_last(), k) + if pts.last().0@ == k {
            seq![pts.last().1]
        } else {
            Seq::<u32>::empty()
        }
    }
}

/// The values of the points with key `k`, in order.
pub open spec fn values_of<V>(pts: Seq<(String, u32, V)>, k: Seq<char>) -> Seq<V>
    decreases pts.len(),
{
    if pts.len() == 0 {
        seq![]
    } else {
        values_of(pts.drop_last(), k) + if pts.last().0@ == k {
            seq![pts.last().2]
        } else {
            Seq::<V>::empty()
        }
    }
}

/// One series: its key, and the times and values of its points in order.
pub struct Series<V> {
    pub key: String,
    pub ts: Vec<u32>,
    pub values: Vec<V>,
}

fn position_of(keys: &Vec<String>, k: &[char]) -> (r: Option<usize>)
    ensures
        match r {
            Some(i) => i < keys@.len() && keys@[i as int]@ == k@,
            None => !keys@.map_values(|s: String| s@).contains(k@),
        },
{
    let mut i: usize = 0;
    while i < keys.len()
        invariant
            i <= keys@.len(),
            forall|j: int| 0 <= j < i ==> keys@[j]@ != k@,
        decreases keys.len() - i,
    {
        if chars_eq(&chars_of(keys[i].as_str()), k) {
            return Some(i);
        }
        i += 1;
    }
    proof {
        let m = keys@.map_values(|s: String| s@);
        if m.contains(k@) {
            let j = choose|j: int| 0 <= j < m.len() && m[j] == k@;
            assert(keys@[j]@ == k@);
        }
    }
    None
}

/// Series `n` holds the `n`-th key with the times and values of its points.
pub open spec fn series_match<V>(out: Seq<Series<V>>, points: Seq<(String, u32, V)>) -> bool {
    forall|n: int|
        0 <= n < out.len() ==> {
            &&& #[trigger] out[n].key@ == keys_in_order(points)[n]
            &&& out[n].ts@ == times_of(points, keys_in_order(points)[n])
            &&& out[n].values@ == values_of(points, keys_in_order(points)[n])
        }
}

/// Groups points into one series per key, keys in order of first
/// appearance, each series holding its points in their order.
pub fn group_series<V: Copy>(points: &Vec<(String, u32, V)>) -> (out: Vec<Series<V>>)
    ensures
        out@.len() == keys_in_order(points@).len(),
        series_match(out@, points@),
{
    // The keys, in order of first appearance.
    let mut keys: Vec<String> = Vec::new();
    let mut i: usize = 0;
    while i < points.len()
        invariant
            i <= points@.len(),
            keys@.map_values(|s: String| s@) == keys_in_order(points@.subrange(0, i as int)),
        decreases points.len() - i,
    {
        let k = chars_of(points[i].0.as_str());
        let ghost pre = points@.subrange(0, i + 1);
        assert(pre.drop_last() =~= points@.subrange(0, i as int));
        assert(pre.last() == points@[i as int]);
        let ghost prev_keys = keys@;
        let pos = position_of(&keys, &k);
        proof {
            if let Some(j) = pos {
                assert(prev_keys.map_values(|s: String| s@)[j as int] == k@);
                assert(prev_keys.map_values(|s: String| s@).contains(k@));
            }
        }
        if pos.is_none() {
            keys.push(points[i].0.clone());
            assert(keys@.map_values(|s: String| s@) =~= prev_keys.map_values(|s: String| s@).push(
                points@[i as int].0@,
            ));
        }
        assert(keys@.map_values(|s: String| s@) =~= keys_in_order(pre));
        i += 1;
    }
    assert(points@.subrange(0, points@.len() as int) =~= points@);
    // One pass over the points per key.
    let mut out: Vec<Series<V>> = Vec::new();
    let mut g: usize = 0;
    while g < keys.len()
        invariant
            g <= keys@.len(),
            keys@.map_values(|s: String| s@) == keys_in_order(points@),
            out@.len() == g,
            forall|h: int|
                0 <= h < g ==> {
                    &&& #[trigger] out@[h].key@ == keys_in_order(points@)[h]
                    &&& out@[h].ts@ == times_of(points@, keys_in_order(points@)[h])
                    &&& out@[h].values@ == values_of(points@, keys_in_order(points@)[h])
                },
        decreases keys.len() - g,
    {
        let k = chars_of(keys[g].as_str());
        let ghost key = keys@[g as int]@;
        assert(keys@.map_values(|s: String| s@)[g as int] == key);
        let mut ts: Vec<u32> = Vec::new();
        let mut values: Vec<V> = Vec::new();
        let mut j: usize = 0;
        while j < points.len()
            invariant
                j <= points@.len(),
                k@ == key,
                ts@ == times_of(points@.subrange(0, j as int), key),
                values@ == values_of(points@.subrange(0, j as int), key),
            decreases points.len() - j,
        {
            let ghost pre = points@.subrange(0, j + 1);
            assert(pre.drop_last() =~= points@.subrange(0, j as int));
            assert(pre.last() == points@[j as int]);
            if chars_eq(&chars_of(points[j].0.as_str()), &k) {
                ts.push(points[j].1);
                values.push(points[j].2);
            }
            assert(ts@ =~= times_of(pre, key));
            assert(values@ =~= values_of(pre, key));
            j += 1;
        }
        assert(points@.subrange(0, points@.len() as int) =~= points@);
        let ghost prev_out = out@;
        out.push(Series { key: keys[g].clone(), ts, values });
        assert forall|h: int| 0 <= h < g + 1 implies {
            &&& #[trigger] out@[h].key@ == keys_in_order(points@)[h]
            &&& out@[h].ts@ == times_of(points@, keys_in_order(points@)[h])
            &&& out@[h].values@ == values_of(points@, keys_in_order(points@)[h])
        } by {
            if h < g {
                assert(out@[h] == prev_out[h]);
            }
        }
        g += 1;
    }
    assert(keys@.map_values(|s: String| s@).len() == keys@.len());
    assert(out@.len() == keys_in_order(points@).len());
    assert forall|h: int| 0 <= h < out@.len() implies {
        &&& #[trigger] out@[h].key@ == keys_in_order(points@)[h]
        &&& out@[h].ts@ == times_of(points@, keys_in_order(points@)[h])
        &&& out@[h].values@ == values_of(points@, keys_in_order(points@)[h])
    } by {
        assert(h < g);
    }
    assert(series_match(out@, points@));
    out
}

// ---------------------------------------------------------------------------
// Paging
// ---------------------------------------------------------------------------

/// Keeps the first `limit` rows of a page fetched with `limit + 1`; the
/// second result tells whether there were more.
pub fn paginate<T>(rows: Vec<T>, limit: u32) -> (r: (Vec<T>, bool))
    ensures
        r.1 == (rows@.len() > limit),
        r.0@ == if rows@.len() > limit {
            rows@.subrange(0, limit as int)
        } else {
            rows@
        },
{
    let has_more = rows.len() as u64 > limit as u64;
    let mut rows = rows;
    if has_more {
        rows.truncate(limit as usize);
    }
    (rows, has_more)
}

} // verus!

//! Cluster-wide time series (usage vs requests vs capacity) + current summary:
//! the bucket choice and the text of the three queries.

use vstd::prelude::*;
use crate::text::{
    contains_seq, decimal, lemma_contains_after_prefix, lemma_prefix_of_concat, lemma_prefix_trans,
    push_decimal, push_str, string_of,
};
use crate::server::api::timeseries::{align_window, aligned_fits, aligned_spec, series_step, series_step_spec};

verus! {

/// The pod-usage series of the overview, bucketed by `step`.
pub open spec fn overview_pod_sql_spec(step: u32, raw: bool, daily: bool) -> Seq<char> {
    let s = decimal(step as nat);
    if daily {
        "SELECT toDateTime(day) AS t, sum(cpu_core_secs)*1000/"@ + s
            + " AS cpu_usage, sum(cpu_request_core_secs)*1000/"@ + s
            + " AS cpu_request, sum(mem_ws_byte_secs)/"@ + s + " AS mem_ws, sum(mem_request_byte_secs)/"@
            + s
            + " AS mem_request FROM pod_usage_1d WHERE day >= toDate(toDateTime(?)) AND day < toDate(toDateTime(?)) GROUP BY t ORDER BY t"@
    } else if raw {
        "SELECT toStartOfInterval(ts, INTERVAL "@ + s
            + " SECOND) AS t, sum(cpu_usage_millicores * sample_secs)/"@ + s
            + " AS cpu_usage, sum(cpu_request_millicores * sample_secs)/"@ + s
            + " AS cpu_request, sum(mem_working_set_bytes * sample_secs)/"@ + s
            + " AS mem_ws, sum(mem_request_bytes * sample_secs)/"@ + s
            + " AS mem_request FROM pod_usage WHERE ts >= ? AND ts < ? GROUP BY t ORDER BY t"@
    } else {
        "SELECT toStartOfInterval(hour, INTERVAL "@ + s + " SECOND) AS t, sum(cpu_core_secs)*1000/"@
            + s + " AS cpu_usage, sum(cpu_request_core_secs)*1000/"@ + s
            + " AS cpu_request, sum(mem_ws_byte_secs)/"@ + s + " AS mem_ws, sum(mem_request_byte_secs)/"@
            + s
            + " AS mem_request FROM pod_usage_1h WHERE hour >= ? AND hour < ? GROUP BY t ORDER BY t"@
    }
}

/// The node series of the overview: capacity is summed over nodes, each
/// node counted at its maximum within the bucket.
pub open spec fn overview_node_sql_spec(step: u32, raw: bool) -> Seq<char> {
    let s = decimal(step as nat);
    let head = "SELECT t, sum(used) AS cpu_used, sum(cap) AS cpu_capacity, sum(mem_u) AS mem_used, sum(mem_t) AS mem_total FROM ( SELECT toStartOfInterval("@;
    if raw {
        head + "ts, INTERVAL "@ + s + " SECOND) AS t, node, sum(cpu_used_millicores * sample_secs)/"@
            + s
            + " AS used, toFloat64(max(cpu_capacity_millicores)) AS cap, sum(mem_used_bytes * sample_secs)/"@
            + s
            + " AS mem_u, toFloat64(max(mem_total_bytes)) AS mem_t FROM node_usage WHERE ts >= ? AND ts < ? GROUP BY t, node ) GROUP BY t ORDER BY t"@
    } else {
        head + "hour, INTERVAL "@ + s + " SECOND) AS t, node, sum(cpu_used_core_secs)*1000/"@ + s
            + " AS used, toFloat64(max(cpu_capacity_max)) AS cap, sum(mem_used_byte_secs)/"@ + s
            + " AS mem_u, toFloat64(max(mem_total_max)) AS mem_t FROM node_usage_1h WHERE hour >= ? AND hour < ? GROUP BY t, node ) GROUP BY t ORDER BY t"@
    }
}

/// CPU usage and request of the overview, over a rollup: each the sum of
/// its core-seconds times 1000 over the bucket, so both are in millicores.
pub open spec fn rollup_usage_and_request(s: Seq<char>) -> Seq<char> {
    "sum(cpu_core_secs)*1000/"@ + s + " AS cpu_usage, "@ + "sum(cpu_request_core_secs)*1000/"@ + s
        + " AS cpu_request"@
}

/// CPU usage and request of the overview, over the raw samples: each the sum
/// of its millicores times the sample's seconds over the bucket.
pub open spec fn raw_usage_and_request(s: Seq<char>) -> Seq<char> {
    "sum(cpu_usage_millicores * sample_secs)/"@ + s + " AS cpu_usage, "@
        + "sum(cpu_request_millicores * sample_secs)/"@ + s + " AS cpu_request"@
}

/// In every branch of the overview the CPU usage is in millicores, scaled as
/// the request beside it, over a bucket of `step` seconds.
pub proof fn law_overview_cpu_in_millicores(step: u32, raw: bool, daily: bool)
    ensures
        daily || !raw ==> contains_seq(
            overview_pod_sql_spec(step, raw, daily),
            rollup_usage_and_request(decimal(step as nat)),
        ),
        !daily && raw ==> contains_seq(
            overview_pod_sql_spec(step, raw, daily),
            raw_usage_and_request(decimal(step as nat)),
        ),
{
    let s = decimal(step as nat);
    let text = overview_pod_sql_spec(step, raw, daily);
    reveal_strlit(" AS cpu_usage, sum(cpu_request_core_secs)*1000/");
    reveal_strlit(" AS cpu_usage, ");
    reveal_strlit("sum(cpu_request_core_secs)*1000/");
    reveal_strlit(" AS cpu_request, sum(mem_ws_byte_secs)/");
    reveal_strlit(" AS cpu_request");
    reveal_strlit(", sum(mem_ws_byte_secs)/");
    reveal_strlit("sum(cpu_core_secs)*1000/");
    let l3 = " AS cpu_usage, sum(cpu_request_core_secs)*1000/"@;
    let l4 = " AS cpu_request, sum(mem_ws_byte_secs)/"@;
    assert(l3 =~= " AS cpu_usage, "@ + "sum(cpu_request_core_secs)*1000/"@);
    assert(l4 =~= " AS cpu_request"@ + ", sum(mem_ws_byte_secs)/"@);
    if daily {
        let l2 = "SELECT toDateTime(day) AS t, sum(cpu_core_secs)*1000/"@;
        let a = "SELECT toDateTime(day) AS t, "@;
        reveal_strlit("SELECT toDateTime(day) AS t, sum(cpu_core_secs)*1000/");
        reveal_strlit("SELECT toDateTime(day) AS t, ");
        assert(l2 =~= a + "sum(cpu_core_secs)*1000/"@);
        let y = l2 + s + l3 + s + l4;
        let p = rollup_usage_and_request(s);
        assert((a + p) + ", sum(mem_ws_byte_secs)/"@ =~= y);
        lemma_prefix_of_concat(a + p, ", sum(mem_ws_byte_secs)/"@);
        assert(y.is_prefix_of(text));
        lemma_prefix_trans(a + p, y, text);
        lemma_contains_after_prefix(a, p, text);
    } else if raw {
        reveal_strlit(" SECOND) AS t, sum(cpu_usage_millicores * sample_secs)/");
        reveal_strlit(" SECOND) AS t, ");
        reveal_strlit("sum(cpu_usage_millicores * sample_secs)/");
        reveal_strlit(" AS cpu_usage, sum(cpu_request_millicores * sample_secs)/");
        reveal_strlit("sum(cpu_request_millicores * sample_secs)/");
        reveal_strlit(" AS cpu_request, sum(mem_working_set_bytes * sample_secs)/");
        reveal_strlit(", sum(mem_working_set_bytes * sample_secs)/");
        let l1 = "SELECT toStartOfInterval(ts, INTERVAL "@;
        let m2 = " SECOND) AS t, sum(cpu_usage_millicores * sample_secs)/"@;
        let m3 = " AS cpu_usage, sum(cpu_request_millicores * sample_secs)/"@;
        let m4 = " AS cpu_request, sum(mem_working_set_bytes * sample_secs)/"@;
        assert(m2 =~= " SECOND) AS t, "@ + "sum(cpu_usage_millicores * sample_secs)/"@);
        assert(m3 =~= " AS cpu_usage, "@ + "sum(cpu_request_millicores * sample_secs)/"@);
        assert(m4 =~= " AS cpu_request"@ + ", sum(mem_working_set_bytes * sample_secs)/"@);
        let a = l1 + s + " SECOND) AS t, "@;
        let y = l1 + s + m2 + s + m3 + s + m4;
        let p = raw_usage_and_request(s);
        assert((a + p) + ", sum(mem_working_set_bytes * sample_secs)/"@ =~= y);
        lemma_prefix_of_concat(a + p, ", sum(mem_working_set_bytes * sample_secs)/"@);
        assert(y.is_prefix_of(text));
        lemma_prefix_trans(a + p, y, text);
        lemma_contains_after_prefix(a, p, text);
    } else {
        reveal_strlit(" SECOND) AS t, sum(cpu_core_secs)*1000/");
        reveal_strlit(" SECOND) AS t, ");
        let l1 = "SELECT toStartOfInterval(hour, INTERVAL "@;
        let l2 = " SECOND) AS t, sum(cpu_core_secs)*1000/"@;
        assert(l2 =~= " SECOND) AS t, "@ + "sum(cpu_core_secs)*1000/"@);
        let a = l1 + s + " SECOND) AS t, "@;
        let y = l1 + s + l2 + s + l3 + s + l4;
        let p = rollup_usage_and_request(s);
        assert((a + p) + ", sum(mem_ws_byte_secs)/"@ =~= y);
        lemma_prefix_of_concat(a + p, ", sum(mem_ws_byte_secs)/"@);
        assert(y.is_prefix_of(text));
        lemma_prefix_trans(a + p, y, text);
        lemma_contains_after_prefix(a, p, text);
    }
}

/// Counts of the nodes, pods and namespaces seen in the last five minutes.
pub open spec fn overview_summary_sql_spec() -> Seq<char> {
    "SELECT uniqExact(node) AS nodes, uniqExact(pod_uid) AS pods, uniqExact(namespace) AS namespaces FROM pod_usage WHERE ts >= now() - 300"@
}

/// Everything the overview queries need: bucket size, the aligned window
/// `[from, to)` both series are bound to, and the three query texts.
pub struct OverviewPlan {
    pub step: u32,
    pub from: u32,
    pub to: u32,
    pub pod_sql: String,
    pub node_sql: String,
    pub summary_sql: String,
}

/// Plans the overview for the range `[from, to)`: beyond ten days one point
/// a day from the daily rollup; the window is aligned to whole buckets and
/// excludes the bucket in progress.
pub fn plan_overview(from: u32, to: u32) -> (p: OverviewPlan)
    requires
        aligned_fits(from, series_step_spec(from, to).0),
    ensures
        ({
            let (step, raw, daily) = series_step_spec(from, to);
            &&& p.step == step
            &&& (p.from, p.to) == aligned_spec(from, to, step)
            &&& p.pod_sql@ == overview_pod_sql_spec(step, raw, daily)
            &&& p.node_sql@ == overview_node_sql_spec(step, raw)
            &&& p.summary_sql@ == overview_summary_sql_spec()
        }),
{
    let (step, raw, daily) = series_step(from, to);
    let (f, t) = align_window(from, to, step);
    let n = step as u64;
    let mut pod: Vec<char> = Vec::new();
    if daily {
        push_str(&mut pod, "SELECT toDateTime(day) AS t, sum(cpu_core_secs)*1000/");
        push_decimal(&mut pod, n);
        push_str(&mut pod, " AS cpu_usage, sum(cpu_request_core_secs)*1000/");
        push_decimal(&mut pod, n);
        push_str(&mut pod, " AS cpu_request, sum(mem_ws_byte_secs)/");
        push_decimal(&mut pod, n);
        push_str(&mut pod, " AS mem_ws, sum(mem_request_byte_secs)/");
        push_decimal(&mut pod, n);
        push_str(
            &mut pod,
            " AS mem_request FROM pod_usage_1d WHERE day >= toDate(toDateTime(?)) AND day < toDate(toDateTime(?)) GROUP BY t ORDER BY t",
        );
    } else if raw {
        push_str(&mut pod, "SELECT toStartOfInterval(ts, INTERVAL ");
        push_decimal(&mut pod, n);
        push_str(&mut pod, " SECOND) AS t, sum(cpu_usage_millicores * sample_secs)/");
        push_decimal(&mut pod, n);
        push_str(&mut pod, " AS cpu_usage, sum(cpu_request_millicores * sample_secs)/");
        push_decimal(&mut pod, n);
        push_str(&mut pod, " AS cpu_request, sum(mem_working_set_bytes * sample_secs)/");
        push_decimal(&mut pod, n);
        push_str(&mut pod, " AS mem_ws, sum(mem_request_bytes * sample_secs)/");
        push_decimal(&mut pod, n);
        push_str(
            &mut pod,
            " AS mem_request FROM pod_usage WHERE ts >= ? AND ts < ? GROUP BY t ORDER BY t",
        );
    } else {
        push_str(&mut pod, "SELECT toStartOfInterval(hour, INTERVAL ");
        push_decimal(&mut pod, n);
        push_str(&mut pod, " SECOND) AS t, sum(cpu_core_secs)*1000/");
        push_decimal(&mut pod, n);
        push_str(&mut pod, " AS cpu_usage, sum(cpu_request_core_secs)*1000/");
        push_decimal(&mut pod, n);
        push_str(&mut pod, " AS cpu_request, sum(mem_ws_byte_secs)/");
        push_decimal(&mut pod, n);
        push_str(&mut pod, " AS mem_ws, sum(mem_request_byte_secs)/");
        push_decimal(&mut pod, n);
        push_str(
            &mut pod,
            " AS mem_request FROM pod_usage_1h WHERE hour >= ? AND hour < ? GROUP BY t ORDER BY t",
        );
    }
    assert(pod@ =~= overview_pod_sql_spec(step, raw, daily));

    let mut node: Vec<char> = Vec::new();
    push_str(
        &mut node,
        "SELECT t, sum(used) AS cpu_used, sum(cap) AS cpu_capacity, sum(mem_u) AS mem_used, sum(mem_t) AS mem_total FROM ( SELECT toStartOfInterval(",
    );
    if raw {
        push_str(&mut node, "ts, INTERVAL ");
        push_decimal(&mut node, n);
        push_str(&mut node, " SECOND) AS t, node, sum(cpu_used_millicores * sample_secs)/");
        push_decimal(&mut node, n);
        push_str(
            &mut node,
            " AS used, toFloat64(max(cpu_capacity_millicores)) AS cap, sum(mem_used_bytes * sample_secs)/",
        );
        push_decimal(&mut node, n);
        push_str(
            &mut node,
            " AS mem_u, toFloat64(max(mem_total_bytes)) AS mem_t FROM node_usage WHERE ts >= ? AND ts < ? GROUP BY t, node ) GROUP BY t ORDER BY t",
        );
    } else {
        push_str(&mut node, "hour, INTERVAL ");
        push_decimal(&mut node, n);
        push_str(&mut node, " SECOND) AS t, node, sum(cpu_used_core_secs)*1000/");
        push_decimal(&mut node, n);
        push_str(
            &mut node,
            " AS used, toFloat64(max(cpu_capacity_max)) AS cap, sum(mem_used_byte_secs)/",
        );
        push_decimal(&mut node, n);
        push_str(
            &mut node,
            " AS mem_u, toFloat64(max(mem_total_max)) AS mem_t FROM node_usage_1h WHERE hour >= ? AND hour < ? GROUP BY t, node ) GROUP BY t ORDER BY t",
        );
    }
    assert(node@ =~= overview_node_sql_spec(step, raw));

    let summary = String::from_str(
        "SELECT uniqExact(node) AS nodes, uniqExact(pod_uid) AS pods, uniqExact(namespace) AS namespaces FROM pod_usage WHERE ts >= now() - 300",
    );
    OverviewPlan {
        step,
        from: f,
        to: t,
        pod_sql: string_of(&pod),
        node_sql: string_of(&node),
        summary_sql: summary,
    }
}

} // verus!

//! Per-pod stats for the workload detail page. Averages are over each pod's
//! own observed seconds (a pod's truthful rate while it ran), not the query
//! window — right-sizing needs "what does this pod do when alive".

use vstd::prelude::*;
use crate::text::{push_str, string_of};
use crate::server::api::{
    sort_column,
    limit_spec, pod_range_spec, pod_source_spec, pod_where_spec, scope_filter, scope_filter_spec,
    sort_sql_spec, PagePlan, RangeQuery,
};

verus! {

/// The columns the pods page may be sorted by.
pub open spec fn pod_sort_columns() -> Seq<&'static str> {
    seq![
        "cpu_usage_avg",
        "cpu_p95",
        "mem_usage_avg",
        "mem_ws_max",
        "cpu_throttled_max",
        "runtime_secs",
        "pod_name",
    ]
}

/// The sortable columns, in the order they are matched.
pub fn sort_columns() -> (r: Vec<&'static str>)
    ensures
        r@ == pod_sort_columns(),
{
    let mut v: Vec<&'static str> = Vec::new();
    v.push("cpu_usage_avg");
    v.push("cpu_p95");
    v.push("mem_usage_avg");
    v.push("mem_ws_max");
    v.push("cpu_throttled_max");
    v.push("runtime_secs");
    v.push("pod_name");
    assert(v@ =~= pod_sort_columns());
    v
}

/// The pods query; `filters` narrows it to a namespace and/or workload.
pub open spec fn pods_sql_spec(
    table: Seq<char>,
    where_clause: Seq<char>,
    filters: Seq<char>,
    sort: Seq<char>,
) -> Seq<char> {
    "SELECT pod_name, any(node) AS node, any(qos) AS qos, sum(secs) AS runtime_secs, sum(cpu_core_secs)*1000/sum(secs) AS cpu_usage_avg, quantileTDigestMerge(0.95)(cpu_usage_p95) AS cpu_p95, sum(cpu_request_core_secs)*1000/sum(secs) AS cpu_request, sum(cpu_limit_core_secs)*1000/sum(secs) AS cpu_limit, max(cpu_throttled_max) AS cpu_throttled_max, sum(mem_ws_byte_secs)/sum(secs) AS mem_usage_avg, max(mem_ws_max) AS mem_ws_max, sum(mem_request_byte_secs)/sum(secs) AS mem_request, max(psi_cpu_some_max) AS psi_cpu_max, max(psi_mem_some_max) AS psi_mem_max FROM "@
        + table + " WHERE "@ + where_clause + filters + " GROUP BY pod_name ORDER BY "@ + sort
        + " LIMIT ? OFFSET ?"@
}

/// Plans the pods page for the clock reading `now`; the namespace and the
/// workload, when given, are bound after the two times, in that order.
pub fn plan_pods(query: &RangeQuery, now: u32) -> (p: PagePlan)
    ensures
        (p.from, p.to) == pod_range_spec(*query, now),
        p.sql@ == pods_sql_spec(
            pod_source_spec(*query, now).0,
            pod_where_spec(*query, now),
            scope_filter_spec(*query).0,
            sort_sql_spec(*query, pod_sort_columns(), "cpu_usage_avg"@),
        ),
        p.binds@.map_values(|b: String| b@) == scope_filter_spec(*query).1,
        p.limit == limit_spec(*query),
        p.offset == match query.offset {
            Some(o) => o,
            None => 0,
        },
{
    let (from, to) = query.pod_range_at(now);
    let (table, _) = query.pod_source_at(now);
    let where_clause = query.pod_where_at(now);
    let columns = sort_columns();
    let sort = query.sort_sql(columns.as_slice(), "cpu_usage_avg");
    let (filters, binds) = scope_filter(query);
    let mut out: Vec<char> = Vec::new();
    push_str(
        &mut out,
        "SELECT pod_name, any(node) AS node, any(qos) AS qos, sum(secs) AS runtime_secs, sum(cpu_core_secs)*1000/sum(secs) AS cpu_usage_avg, quantileTDigestMerge(0.95)(cpu_usage_p95) AS cpu_p95, sum(cpu_request_core_secs)*1000/sum(secs) AS cpu_request, sum(cpu_limit_core_secs)*1000/sum(secs) AS cpu_limit, max(cpu_throttled_max) AS cpu_throttled_max, sum(mem_ws_byte_secs)/sum(secs) AS mem_usage_avg, max(mem_ws_max) AS mem_ws_max, sum(mem_request_byte_secs)/sum(secs) AS mem_request, max(psi_cpu_some_max) AS psi_cpu_max, max(psi_mem_some_max) AS psi_mem_max FROM ",
    );
    push_str(&mut out, table);
    push_str(&mut out, " WHERE ");
    push_str(&mut out, where_clause.as_str());
    push_str(&mut out, filters.as_str());
    push_str(&mut out, " GROUP BY pod_name ORDER BY ");
    push_str(&mut out, sort.as_str());
    push_str(&mut out, " LIMIT ? OFFSET ?");
    assert(out@ =~= pods_sql_spec(table@, where_clause@, filters@, sort@));
    PagePlan {
        from,
        to,
        sql: string_of(&out),
        binds,
        limit: query.limit(),
        offset: query.offset(),
    }
}

/// Every sortable column of the pods page can be sorted by: asking for it
/// orders by it; without a choice the page orders by average CPU usage.
pub proof fn law_pods_sort_by_each_column(q: RangeQuery)
    ensures
        match q.sort_by {
            Some(c) => (c@ == "cpu_usage_avg"@
                || c@ == "cpu_p95"@
                || c@ == "mem_usage_avg"@
                || c@ == "mem_ws_max"@
                || c@ == "cpu_throttled_max"@
                || c@ == "runtime_secs"@
                || c@ == "pod_name"@)
                ==> sort_column(q, pod_sort_columns(), "cpu_usage_avg"@) == c@,
            None => sort_column(q, pod_sort_columns(), "cpu_usage_avg"@) == "cpu_usage_avg"@,
        },
{
    if let Some(c) = q.sort_by {
        if c@ == "cpu_usage_avg"@ {
            assert(pod_sort_columns()[0]@ == c@);
        }
        if c@ == "cpu_p95"@ {
            assert(pod_sort_columns()[1]@ == c@);
        }
        if c@ == "mem_usage_avg"@ {
            assert(pod_sort_columns()[2]@ == c@);
        }
        if c@ == "mem_ws_max"@ {
            assert(pod_sort_columns()[3]@ == c@);
        }
        if c@ == "cpu_throttled_max"@ {
            assert(pod_sort_columns()[4]@ == c@);
        }
        if c@ == "runtime_secs"@ {
            assert(pod_sort_columns()[5]@ == c@);
        }
        if c@ == "pod_name"@ {
            assert(pod_sort_columns()[6]@ == c@);
        }
    }
}

} // verus!

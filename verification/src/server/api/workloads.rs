//! Per-workload consumption, waste, throttling and pressure (from the pod
//! rollups): the query text of the workloads page.

use vstd::prelude::*;
use crate::text::{decimal, push_decimal, push_str, string_of};
use crate::server::api::{
    sort_column,
    limit_spec, pod_range_spec, pod_source_spec, pod_where_spec, sort_sql_spec, window_spec,
    PagePlan, RangeQuery,
};

verus! {

/// The columns the workloads page may be sorted by.
pub open spec fn workload_sort_columns() -> Seq<&'static str> {
    seq![
        "cpu_usage_avg",
        "cpu_request_avg",
        "cpu_waste",
        "cpu_p95",
        "cpu_throttled_max",
        "mem_usage_avg",
        "mem_request_avg",
        "mem_waste",
        "psi_cpu_max",
        "psi_mem_max",
        "pods",
    ]
}

/// The sortable columns, in the order they are matched.
pub fn sort_columns() -> (r: Vec<&'static str>)
    ensures
        r@ == workload_sort_columns(),
{
    let mut v: Vec<&'static str> = Vec::new();
    v.push("cpu_usage_avg");
    v.push("cpu_request_avg");
    v.push("cpu_waste");
    v.push("cpu_p95");
    v.push("cpu_throttled_max");
    v.push("mem_usage_avg");
    v.push("mem_request_avg");
    v.push("mem_waste");
    v.push("psi_cpu_max");
    v.push("psi_mem_max");
    v.push("pods");
    assert(v@ =~= workload_sort_columns());
    v
}

/// The workloads query; `namespace_filter` is `"AND namespace = ?"` when the
/// page is narrowed to a namespace and empty otherwise.
pub open spec fn workloads_sql_spec(
    window: u32,
    table: Seq<char>,
    where_clause: Seq<char>,
    namespace_filter: Seq<char>,
    sort: Seq<char>,
) -> Seq<char> {
    let w = decimal(window as nat);
    "SELECT namespace, workload_kind, workload_name, uniqExact(pod_uid) AS pods, sum(cpu_core_secs)*1000/"@
        + w + " AS cpu_usage_avg, sum(cpu_request_core_secs)*1000/"@ + w
        + " AS cpu_request_avg, cpu_request_avg - cpu_usage_avg AS cpu_waste, quantileTDigestMerge(0.95)(cpu_usage_p95) AS cpu_p95, max(cpu_throttled_max) AS cpu_throttled_max, sum(mem_ws_byte_secs)/"@
        + w + " AS mem_usage_avg, sum(mem_request_byte_secs)/"@ + w
        + " AS mem_request_avg, mem_request_avg - mem_usage_avg AS mem_waste, max(mem_ws_max) AS mem_ws_max, max(psi_cpu_some_max) AS psi_cpu_max, max(psi_mem_some_max) AS psi_mem_max FROM "@
        + table + " WHERE "@ + where_clause + " "@ + namespace_filter
        + " GROUP BY namespace, workload_kind, workload_name ORDER BY "@ + sort + " LIMIT ? OFFSET ?"@
}

/// Plans the workloads page for the clock reading `now`; the namespace, when
/// given, is bound after the two times.
pub fn plan_workloads(query: &RangeQuery, now: u32) -> (p: PagePlan)
    ensures
        (p.from, p.to) == pod_range_spec(*query, now),
        p.sql@ == workloads_sql_spec(
            window_spec(*query, now),
            pod_source_spec(*query, now).0,
            pod_where_spec(*query, now),
            if query.namespace is Some {
                "AND namespace = ?"@
            } else {
                Seq::<char>::empty()
            },
            sort_sql_spec(*query, workload_sort_columns(), "cpu_waste"@),
        ),
        p.binds@.map_values(|b: String| b@) == match query.namespace {
            Some(ns) => seq![ns@],
            None => Seq::<Seq<char>>::empty(),
        },
        p.limit == limit_spec(*query),
        p.offset == match query.offset {
            Some(o) => o,
            None => 0,
        },
{
    let (from, to) = query.pod_range_at(now);
    let window = query.window_at(now);
    let columns = sort_columns();
    let sort = query.sort_sql(columns.as_slice(), "cpu_waste");
    let (table, _) = query.pod_source_at(now);
    let where_clause = query.pod_where_at(now);
    let w = window as u64;
    let mut binds: Vec<String> = Vec::new();
    let namespace_filter: &str = match &query.namespace {
        Some(ns) => {
            binds.push(ns.clone());
            "AND namespace = ?"
        },
        None => "",
    };
    proof {
        reveal_strlit("");
    }
    assert(namespace_filter@ == if query.namespace is Some {
        "AND namespace = ?"@
    } else {
        Seq::<char>::empty()
    });
    let mut out: Vec<char> = Vec::new();
    push_str(
        &mut out,
        "SELECT namespace, workload_kind, workload_name, uniqExact(pod_uid) AS pods, sum(cpu_core_secs)*1000/",
    );
    push_decimal(&mut out, w);
    push_str(&mut out, " AS cpu_usage_avg, sum(cpu_request_core_secs)*1000/");
    push_decimal(&mut out, w);
    push_str(
        &mut out,
        " AS cpu_request_avg, cpu_request_avg - cpu_usage_avg AS cpu_waste, quantileTDigestMerge(0.95)(cpu_usage_p95) AS cpu_p95, max(cpu_throttled_max) AS cpu_throttled_max, sum(mem_ws_byte_secs)/",
    );
    push_decimal(&mut out, w);
    push_str(&mut out, " AS mem_usage_avg, sum(mem_request_byte_secs)/");
    push_decimal(&mut out, w);
    push_str(
        &mut out,
        " AS mem_request_avg, mem_request_avg - mem_usage_avg AS mem_waste, max(mem_ws_max) AS mem_ws_max, max(psi_cpu_some_max) AS psi_cpu_max, max(psi_mem_some_max) AS psi_mem_max FROM ",
    );
    push_str(&mut out, table);
    push_str(&mut out, " WHERE ");
    push_str(&mut out, where_clause.as_str());
    push_str(&mut out, " ");
    push_str(&mut out, namespace_filter);
    push_str(&mut out, " GROUP BY namespace, workload_kind, workload_name ORDER BY ");
    push_str(&mut out, sort.as_str());
    push_str(&mut out, " LIMIT ? OFFSET ?");
    assert(out@ =~= workloads_sql_spec(window, table@, where_clause@, namespace_filter@, sort@));
    assert(binds@.map_values(|b: String| b@) =~= match query.namespace {
        Some(ns) => seq![ns@],
        None => Seq::<Seq<char>>::empty(),
    });
    PagePlan {
        from,
        to,
        sql: string_of(&out),
        binds,
        limit: query.limit(),
        offset: query.offset(),
    }
}

/// Every metric column of the workloads page can be sorted by: asking for it
/// orders by it; without a choice the page orders by CPU waste.
pub proof fn law_workloads_sort_by_each_metric(q: RangeQuery)
    ensures
        match q.sort_by {
            Some(c) => (c@ == "cpu_usage_avg"@
                || c@ == "cpu_request_avg"@
                || c@ == "cpu_waste"@
                || c@ == "cpu_p95"@
                || c@ == "cpu_throttled_max"@
                || c@ == "mem_usage_avg"@
                || c@ == "mem_request_avg"@
                || c@ == "mem_waste"@
                || c@ == "psi_cpu_max"@
                || c@ == "psi_mem_max"@
                || c@ == "pods"@)
                ==> sort_column(q, workload_sort_columns(), "cpu_waste"@) == c@,
            None => sort_column(q, workload_sort_columns(), "cpu_waste"@) == "cpu_waste"@,
        },
{
    if let Some(c) = q.sort_by {
        if c@ == "cpu_usage_avg"@ {
            assert(workload_sort_columns()[0]@ == c@);
        }
        if c@ == "cpu_request_avg"@ {
            assert(workload_sort_columns()[1]@ == c@);
        }
        if c@ == "cpu_waste"@ {
            assert(workload_sort_columns()[2]@ == c@);
        }
        if c@ == "cpu_p95"@ {
            assert(workload_sort_columns()[3]@ == c@);
        }
        if c@ == "cpu_throttled_max"@ {
            assert(workload_sort_columns()[4]@ == c@);
        }
        if c@ == "mem_usage_avg"@ {
            assert(workload_sort_columns()[5]@ == c@);
        }
        if c@ == "mem_request_avg"@ {
            assert(workload_sort_columns()[6]@ == c@);
        }
        if c@ == "mem_waste"@ {
            assert(workload_sort_columns()[7]@ == c@);
        }
        if c@ == "psi_cpu_max"@ {
            assert(workload_sort_columns()[8]@ == c@);
        }
        if c@ == "psi_mem_max"@ {
            assert(workload_sort_columns()[9]@ == c@);
        }
        if c@ == "pods"@ {
            assert(workload_sort_columns()[10]@ == c@);
        }
    }
}

} // verus!

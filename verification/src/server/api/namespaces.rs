//! Per-namespace consumption and waste over a period (from the pod rollups):
//! the query text of the namespaces page.

use vstd::prelude::*;
use crate::text::{decimal, push_decimal, push_str, string_of};
use crate::server::api::{
    sort_column,
    limit_spec, pod_range_spec, pod_source_spec, pod_where_spec, sort_sql_spec, window_spec,
    PagePlan, RangeQuery,
};

verus! {

/// The columns the namespaces page may be sorted by.
pub open spec fn namespace_sort_columns() -> Seq<&'static str> {
    seq![
        "cpu_usage_avg",
        "cpu_request_avg",
        "cpu_waste",
        "cpu_core_hours",
        "mem_usage_avg",
        "mem_request_avg",
        "mem_waste",
        "mem_gib_hours",
        "pods",
        "namespace",
    ]
}

/// The sortable columns, in the order they are matched.
pub fn sort_columns() -> (r: Vec<&'static str>)
    ensures
        r@ == namespace_sort_columns(),
{
    let mut v: Vec<&'static str> = Vec::new();
    v.push("cpu_usage_avg");
    v.push("cpu_request_avg");
    v.push("cpu_waste");
    v.push("cpu_core_hours");
    v.push("mem_usage_avg");
    v.push("mem_request_avg");
    v.push("mem_waste");
    v.push("mem_gib_hours");
    v.push("pods");
    v.push("namespace");
    assert(v@ =~= namespace_sort_columns());
    v
}

/// The namespaces query: averages over the whole window (`window` seconds).
pub open spec fn namespaces_sql_spec(
    window: u32,
    table: Seq<char>,
    where_clause: Seq<char>,
    sort: Seq<char>,
) -> Seq<char> {
    let w = decimal(window as nat);
    "SELECT namespace, uniqExact(pod_uid) AS pods, sum(cpu_core_secs)*1000/"@ + w
        + " AS cpu_usage_avg, sum(cpu_request_core_secs)*1000/"@ + w
        + " AS cpu_request_avg, cpu_request_avg - cpu_usage_avg AS cpu_waste, sum(cpu_core_secs)/3600 AS cpu_core_hours, sum(mem_ws_byte_secs)/"@
        + w + " AS mem_usage_avg, sum(mem_request_byte_secs)/"@ + w
        + " AS mem_request_avg, mem_request_avg - mem_usage_avg AS mem_waste, sum(mem_ws_byte_secs)/3600/1073741824 AS mem_gib_hours FROM "@
        + table + " WHERE "@ + where_clause + " GROUP BY namespace ORDER BY "@ + sort
        + " LIMIT ? OFFSET ?"@
}

/// Plans the namespaces page for the clock reading `now`.
pub fn plan_namespaces(query: &RangeQuery, now: u32) -> (p: PagePlan)
    ensures
        (p.from, p.to) == pod_range_spec(*query, now),
        p.sql@ == namespaces_sql_spec(
            window_spec(*query, now),
            pod_source_spec(*query, now).0,
            pod_where_spec(*query, now),
            sort_sql_spec(*query, namespace_sort_columns(), "cpu_usage_avg"@),
        ),
        p.binds@.len() == 0,
        p.limit == limit_spec(*query),
        p.offset == match query.offset {
            Some(o) => o,
            None => 0,
        },
{
    let (from, to) = query.pod_range_at(now);
    let window = query.window_at(now);
    let columns = sort_columns();
    let sort = query.sort_sql(columns.as_slice(), "cpu_usage_avg");
    let (table, _) = query.pod_source_at(now);
    let where_clause = query.pod_where_at(now);
    let w = window as u64;
    let mut out: Vec<char> = Vec::new();
    push_str(&mut out, "SELECT namespace, uniqExact(pod_uid) AS pods, sum(cpu_core_secs)*1000/");
    push_decimal(&mut out, w);
    push_str(&mut out, " AS cpu_usage_avg, sum(cpu_request_core_secs)*1000/");
    push_decimal(&mut out, w);
    push_str(
        &mut out,
        " AS cpu_request_avg, cpu_request_avg - cpu_usage_avg AS cpu_waste, sum(cpu_core_secs)/3600 AS cpu_core_hours, sum(mem_ws_byte_secs)/",
    );
    push_decimal(&mut out, w);
    push_str(&mut out, " AS mem_usage_avg, sum(mem_request_byte_secs)/");
    push_decimal(&mut out, w);
    push_str(
        &mut out,
        " AS mem_request_avg, mem_request_avg - mem_usage_avg AS mem_waste, sum(mem_ws_byte_secs)/3600/1073741824 AS mem_gib_hours FROM ",
    );
    push_str(&mut out, table);
    push_str(&mut out, " WHERE ");
    push_str(&mut out, where_clause.as_str());
    push_str(&mut out, " GROUP BY namespace ORDER BY ");
    push_str(&mut out, sort.as_str());
    push_str(&mut out, " LIMIT ? OFFSET ?");
    assert(out@ =~= namespaces_sql_spec(window, table@, where_clause@, sort@));
    PagePlan {
        from,
        to,
        sql: string_of(&out),
        binds: Vec::new(),
        limit: query.limit(),
        offset: query.offset(),
    }
}

/// Every column of the namespaces page can be sorted by: asking for it orders
/// by it; without a choice the page orders by average CPU usage.
pub proof fn law_namespaces_sort_by_each_column(q: RangeQuery)
    ensures
        match q.sort_by {
            Some(c) => (c@ == "cpu_usage_avg"@
                || c@ == "cpu_request_avg"@
                || c@ == "cpu_waste"@
                || c@ == "cpu_core_hours"@
                || c@ == "mem_usage_avg"@
                || c@ == "mem_request_avg"@
                || c@ == "mem_waste"@
                || c@ == "mem_gib_hours"@
                || c@ == "pods"@
                || c@ == "namespace"@)
                ==> sort_column(q, namespace_sort_columns(), "cpu_usage_avg"@) == c@,
            None => sort_column(q, namespace_sort_columns(), "cpu_usage_avg"@) == "cpu_usage_avg"@,
        },
{
    if let Some(c) = q.sort_by {
        if c@ == "cpu_usage_avg"@ {
            assert(namespace_sort_columns()[0]@ == c@);
        }
        if c@ == "cpu_request_avg"@ {
            assert(namespace_sort_columns()[1]@ == c@);
        }
        if c@ == "cpu_waste"@ {
            assert(namespace_sort_columns()[2]@ == c@);
        }
        if c@ == "cpu_core_hours"@ {
            assert(namespace_sort_columns()[3]@ == c@);
        }
        if c@ == "mem_usage_avg"@ {
            assert(namespace_sort_columns()[4]@ == c@);
        }
        if c@ == "mem_request_avg"@ {
            assert(namespace_sort_columns()[5]@ == c@);
        }
        if c@ == "mem_waste"@ {
            assert(namespace_sort_columns()[6]@ == c@);
        }
        if c@ == "mem_gib_hours"@ {
            assert(namespace_sort_columns()[7]@ == c@);
        }
        if c@ == "pods"@ {
            assert(namespace_sort_columns()[8]@ == c@);
        }
        if c@ == "namespace"@ {
            assert(namespace_sort_columns()[9]@ == c@);
        }
    }
}

} // verus!

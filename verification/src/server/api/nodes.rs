//! Per-node saturation and bin-packing headroom (usage + requested vs
//! allocatable): the query texts of the nodes page and the join of their rows.

use vstd::prelude::*;
use crate::text::{chars_eq, chars_of, decimal, push_decimal, push_str, string_of};
use crate::server::api::{
    pod_range_spec, pod_source_spec, pod_where_spec, range_spec, window_spec, RangeQuery,
};

verus! {

/// The node range: node usage only has an hourly rollup, so the range is
/// snapped down to the hour and made at least a minute long.
pub open spec fn node_range_spec(q: RangeQuery, now: u32) -> (u32, u32) {
    let (from, to) = range_spec(q, now);
    let f = (from / 3600 * 3600) as u32;
    (f, if to >= f + 60 {
        to
    } else {
        (f + 60) as u32
    })
}

/// Per-node averages over observed time (a node that joined mid-window still
/// shows its true utilization), maxima and pod counts.
pub open spec fn node_stats_sql_spec() -> Seq<char> {
    "SELECT node, sum(cpu_used_core_secs)*1000/sum(secs) AS cpu_used_avg, max(cpu_used_max) AS cpu_used_max, max(cpu_capacity_max) AS cpu_capacity, sum(mem_used_byte_secs)/sum(secs) AS mem_used_avg, max(mem_used_max) AS mem_used_max, max(mem_total_max) AS mem_total, max(pod_count_max) AS pods FROM node_usage_1h WHERE hour >= toDateTime(?) AND hour < toDateTime(?) GROUP BY node ORDER BY node"@
}

/// Requested totals per node, from the pod rollup over the pod range.
pub open spec fn node_requested_sql_spec(
    window: u32,
    table: Seq<char>,
    where_clause: Seq<char>,
) -> Seq<char> {
    let w = decimal(window as nat);
    "SELECT node, sum(cpu_request_core_secs)*1000/"@ + w
        + " AS cpu_requested_avg, sum(mem_request_byte_secs)/"@ + w + " AS mem_requested_avg FROM "@
        + table + " WHERE "@ + where_clause + " GROUP BY node"@
}

/// Allocatable resources per node, as last synced.
pub open spec fn node_allocatable_sql_spec() -> Seq<char> {
    "SELECT name, cpu_allocatable_millicores, mem_allocatable_bytes FROM nodes FINAL"@
}

/// The three queries of the nodes page and the ranges they are bound to.
pub struct NodesPlan {
    pub node_from: u32,
    pub node_to: u32,
    pub stats_sql: String,
    pub from: u32,
    pub to: u32,
    pub requested_sql: String,
    pub allocatable_sql: String,
}

/// Plans the nodes page for the clock reading `now`.
pub fn plan_nodes(query: &RangeQuery, now: u32) -> (p: NodesPlan)
    ensures
        (p.node_from, p.node_to) == node_range_spec(*query, now),
        p.stats_sql@ == node_stats_sql_spec(),
        (p.from, p.to) == pod_range_spec(*query, now),
        p.requested_sql@ == node_requested_sql_spec(
            window_spec(*query, now),
            pod_source_spec(*query, now).0,
            pod_where_spec(*query, now),
        ),
        p.allocatable_sql@ == node_allocatable_sql_spec(),
{
    let (nfrom, nto) = query.range_at(now);
    let nfrom = nfrom / 3600 * 3600;
    let nto = if nto >= nfrom + 60 {
        nto
    } else {
        nfrom + 60
    };
    let (from, to) = query.pod_range_at(now);
    let window = query.window_at(now);
    let (table, _) = query.pod_source_at(now);
    let where_clause = query.pod_where_at(now);
    let w = window as u64;
    let mut out: Vec<char> = Vec::new();
    push_str(&mut out, "SELECT node, sum(cpu_request_core_secs)*1000/");
    push_decimal(&mut out, w);
    push_str(&mut out, " AS cpu_requested_avg, sum(mem_request_byte_secs)/");
    push_decimal(&mut out, w);
    push_str(&mut out, " AS mem_requested_avg FROM ");
    push_str(&mut out, table);
    push_str(&mut out, " WHERE ");
    push_str(&mut out, where_clause.as_str());
    push_str(&mut out, " GROUP BY node");
    assert(out@ =~= node_requested_sql_spec(window, table@, where_clause@));
    NodesPlan {
        node_from: nfrom,
        node_to: nto,
        stats_sql: String::from_str(
            "SELECT node, sum(cpu_used_core_secs)*1000/sum(secs) AS cpu_used_avg, max(cpu_used_max) AS cpu_used_max, max(cpu_capacity_max) AS cpu_capacity, sum(mem_used_byte_secs)/sum(secs) AS mem_used_avg, max(mem_used_max) AS mem_used_max, max(mem_total_max) AS mem_total, max(pod_count_max) AS pods FROM node_usage_1h WHERE hour >= toDateTime(?) AND hour < toDateTime(?) GROUP BY node ORDER BY node",
        ),
        from,
        to,
        requested_sql: string_of(&out),
        allocatable_sql: String::from_str(
            "SELECT name, cpu_allocatable_millicores, mem_allocatable_bytes FROM nodes FINAL",
        ),
    }
}

/// The value of the last row keyed `key` among `rows`, as a map collected
/// from the rows holds it (a later row replaces an earlier one).
pub open spec fn last_keyed<V>(rows: Seq<(String, V)>, key: Seq<char>) -> Option<V>
    decreases rows.len(),
{
    if rows.len() == 0 {
        None
    } else if rows.last().0@ == key {
        Some(rows.last().1)
    } else {
        last_keyed(rows.drop_last(), key)
    }
}

/// Finds the row of a node among rows keyed by node name (the last one wins).
pub fn lookup_node<V: Copy>(rows: &Vec<(String, V)>, key: &str) -> (r: Option<V>)
    ensures
        r == last_keyed(rows@, key@),
{
    let wanted = chars_of(key);
    let mut i = rows.len();
    assert(rows@.subrange(0, i as int) =~= rows@);
    while i > 0
        invariant
            i <= rows@.len(),
            wanted@ == key@,
            last_keyed(rows@, key@) == last_keyed(rows@.subrange(0, i as int), key@),
        decreases i,
    {
        let ghost pre = rows@.subrange(0, i as int);
        assert(pre.drop_last() =~= rows@.subrange(0, i - 1));
        let name = chars_of(rows[i - 1].0.as_str());
        if chars_eq(&name, &wanted) {
            return Some(rows[i - 1].1);
        }
        i -= 1;
    }
    None
}

/// Joining rows by node name: the row added last for a node is the one
/// found for it, and adding a row for one node does not change what is
/// found for another; no row, nothing found.
pub proof fn law_lookup_finds_last_row<V>(rows: Seq<(String, V)>, row: (String, V), key: Seq<char>)
    ensures
        last_keyed(rows.push(row), row.0@) == Some(row.1),
        key != row.0@ ==> last_keyed(rows.push(row), key) == last_keyed(rows, key),
        last_keyed(Seq::<(String, V)>::empty(), key) is None,
{
    assert(rows.push(row).drop_last() =~= rows);
}

} // verus!

//! Tenant consumption (chargeback): the query that groups the rollups by the
//! compiled tenant expression, and CSV quoting for the export.

use vstd::prelude::*;
use crate::text::{chars_of, decimal, push_decimal, push_str, string_of};
use crate::server::tenancy::{compile_rules, compile_rules_spec, RuleError, TenantRule};
use crate::server::api::{pod_range_spec, pod_source_spec, pod_where_spec, RangeQuery};

verus! {

/// The chargeback query over a rollup table and time filter, for a compiled
/// tenant expression.
pub open spec fn tenants_sql_spec(tenant_expr: Seq<char>, table: Seq<char>, where_clause: Seq<char>) -> Seq<char> {
    "SELECT "@ + tenant_expr
        + " AS tenant, uniqExact(namespace) AS namespaces, uniqExact(u.pod_uid) AS pods, sum(cpu_core_secs)/3600 AS cpu_core_hours, sum(cpu_request_core_secs)/3600 AS cpu_request_core_hours, sum(mem_ws_byte_secs)/3600/1073741824 AS mem_gib_hours, sum(mem_request_byte_secs)/3600/1073741824 AS mem_request_gib_hours FROM "@
        + table
        + " AS u LEFT JOIN (SELECT pod_uid, labels AS pod_labels FROM pod_meta FINAL) AS pm ON u.pod_uid = pm.pod_uid LEFT JOIN (SELECT name, labels AS ns_labels FROM namespaces FINAL) AS ns ON u.namespace = ns.name WHERE "@
        + where_clause + " GROUP BY tenant ORDER BY cpu_core_hours DESC"@
}

/// Builds the chargeback query; refused when the rules do not compile.
pub fn tenants_sql(rules: &[TenantRule], table: &str, where_clause: &str) -> (r: Result<String, RuleError>)
    ensures
        match compile_rules_spec(rules@, "ns_labels"@, "pod_labels"@) {
            Ok(expr) => r matches Ok(s) && s@ == tenants_sql_spec(expr, table@, where_clause@),
            Err(e) => r == Err::<String, RuleError>(e),
        },
{
    let expr = match compile_rules(rules, "ns_labels", "pod_labels") {
        Ok(e) => e,
        Err(e) => {
            return Err(e);
        },
    };
    let mut out: Vec<char> = Vec::new();
    push_str(&mut out, "SELECT ");
    push_str(&mut out, expr.as_str());
    push_str(
        &mut out,
        " AS tenant, uniqExact(namespace) AS namespaces, uniqExact(u.pod_uid) AS pods, sum(cpu_core_secs)/3600 AS cpu_core_hours, sum(cpu_request_core_secs)/3600 AS cpu_request_core_hours, sum(mem_ws_byte_secs)/3600/1073741824 AS mem_gib_hours, sum(mem_request_byte_secs)/3600/1073741824 AS mem_request_gib_hours FROM ",
    );
    push_str(&mut out, table);
    push_str(
        &mut out,
        " AS u LEFT JOIN (SELECT pod_uid, labels AS pod_labels FROM pod_meta FINAL) AS pm ON u.pod_uid = pm.pod_uid LEFT JOIN (SELECT name, labels AS ns_labels FROM namespaces FINAL) AS ns ON u.namespace = ns.name WHERE ",
    );
    push_str(&mut out, where_clause);
    push_str(&mut out, " GROUP BY tenant ORDER BY cpu_core_hours DESC");
    assert(out@ =~= tenants_sql_spec(expr@, table@, where_clause@));
    Ok(string_of(&out))
}

/// `s` as a CSV field: in double quotes, inner double quotes doubled.
pub open spec fn csv_quote_body(s: Seq<char>) -> Seq<char>
    decreases s.len(),
{
    if s.len() == 0 {
        seq![]
    } else {
        csv_quote_body(s.drop_last()) + if s.last() == '"' {
            seq!['"', '"']
        } else {
            seq![s.last()]
        }
    }
}

/// Quotes a field CSV-safely (tenant names come from labels).
pub fn csv_quote(s: &str) -> (r: String)
    ensures
        r@ == seq!['"'] + csv_quote_body(s@) + seq!['"'],
{
    let chars = chars_of(s);
    let mut out: Vec<char> = Vec::new();
    out.push('"');
    let mut i: usize = 0;
    while i < chars.len()
        invariant
            i <= chars@.len(),
            chars@ == s@,
            out@ == seq!['"'] + csv_quote_body(chars@.subrange(0, i as int)),
        decreases chars.len() - i,
    {
        let c = chars[i];
        if c == '"' {
            out.push('"');
            out.push('"');
        } else {
            out.push(c);
        }
        assert(chars@.subrange(0, i + 1).drop_last() =~= chars@.subrange(0, i as int));
        assert(out@ =~= seq!['"'] + csv_quote_body(chars@.subrange(0, i + 1)));
        i += 1;
    }
    out.push('"');
    assert(chars@.subrange(0, chars@.len() as int) =~= s@);
    assert(out@ =~= seq!['"'] + csv_quote_body(s@) + seq!['"']);
    string_of(&out)
}

/// The range parameters of the tenant endpoints as a `RangeQuery` (no
/// namespace, sorting or paging).
pub fn tenant_range(from: Option<u32>, to: Option<u32>) -> (q: RangeQuery)
    ensures
        q.from == from,
        q.to == to,
        q.namespace is None,
        q.workload is None,
        q.sort_by is None,
        q.order is None,
        q.limit is None,
        q.offset is None,
{
    RangeQuery {
        from,
        to,
        namespace: None,
        workload: None,
        sort_by: None,
        order: None,
        limit: None,
        offset: None,
    }
}

/// The chargeback query and the pod range bound to its two time placeholders.
pub struct TenantsPlan {
    pub from: u32,
    pub to: u32,
    pub sql: String,
}

/// Plans the chargeback query for the clock reading `now`; refused when the
/// rules do not compile.
pub fn plan_tenants(query: &RangeQuery, now: u32, rules: &[TenantRule]) -> (r: Result<
    TenantsPlan,
    RuleError,
>)
    ensures
        match compile_rules_spec(rules@, "ns_labels"@, "pod_labels"@) {
            Ok(expr) => r matches Ok(p) && (p.from, p.to) == pod_range_spec(*query, now) && p.sql@
                == tenants_sql_spec(expr, pod_source_spec(*query, now).0, pod_where_spec(*query, now)),
            Err(e) => r matches Err(f) && f == e,
        },
{
    let (from, to) = query.pod_range_at(now);
    let (table, _) = query.pod_source_at(now);
    let where_clause = query.pod_where_at(now);
    match tenants_sql(rules, table, where_clause.as_str()) {
        Ok(sql) => Ok(TenantsPlan { from, to, sql }),
        Err(e) => Err(e),
    }
}

/// The header line of the CSV export.
pub open spec fn csv_header_spec() -> Seq<char> {
    "tenant,namespaces,pods,cpu_core_hours,cpu_request_core_hours,mem_gib_hours,mem_request_gib_hours,cost_requested,cost_used\n"@
}

/// The header line of the CSV export.
pub fn csv_header() -> (r: String)
    ensures
        r@ == csv_header_spec(),
{
    String::from_str(
        "tenant,namespaces,pods,cpu_core_hours,cpu_request_core_hours,mem_gib_hours,mem_request_gib_hours,cost_requested,cost_used\n",
    )
}

/// The file name offered for the CSV export of the range `[from, to)`.
pub fn export_filename(from: u32, to: u32) -> (r: String)
    ensures
        r@ == "ekokube-tenants-"@ + decimal(from as nat) + "-"@ + decimal(to as nat) + ".csv"@,
{
    let mut out: Vec<char> = Vec::new();
    push_str(&mut out, "ekokube-tenants-");
    push_decimal(&mut out, from as u64);
    push_str(&mut out, "-");
    push_decimal(&mut out, to as u64);
    push_str(&mut out, ".csv");
    string_of(&out)
}

/// Quoting a CSV field works character by character: a double quote is
/// doubled, every other character is kept, and the quoting of joined text is
/// the joined quotings.
pub proof fn law_csv_quote_doubles_quotes(a: Seq<char>, b: Seq<char>, c: char)
    ensures
        csv_quote_body(seq![c]) == if c == '"' {
            seq!['"', '"']
        } else {
            seq![c]
        },
        csv_quote_body(a + b) == csv_quote_body(a) + csv_quote_body(b),
    decreases b.len(),
{
    assert(seq![c].drop_last() =~= Seq::<char>::empty());
    assert(csv_quote_body(Seq::<char>::empty()) =~= Seq::<char>::empty());
    if b.len() == 0 {
        assert(a + b =~= a);
        assert(csv_quote_body(a) + csv_quote_body(b) =~= csv_quote_body(a));
    } else {
        law_csv_quote_doubles_quotes(a, b.drop_last(), c);
        assert((a + b).drop_last() =~= a + b.drop_last());
        assert((a + b).last() == b.last());
    }
}

} // verus!

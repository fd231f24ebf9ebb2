use ekokube::server::api::metrics::{is_tracked_route, RequestMetrics};
use ekokube::server::api::tenants::{
    csv_header, csv_quote, export_filename, plan_tenants, tenant_range, tenants_sql,
};
use ekokube::server::api::timeseries::{
    align_fits, align_window, group_series, paginate, plan_series, plan_sparklines, series_step,
    sparkline_step, SparklineQuery,
};
use ekokube::server::api::RangeQuery;
use ekokube::server::tenancy::{MatcherType, RuleError, TenantRule, TenantSource};

fn query(from: Option<u32>, to: Option<u32>) -> RangeQuery {
    RangeQuery {
        from,
        to,
        namespace: None,
        workload: None,
        sort_by: None,
        order: None,
        limit: None,
        offset: None,
    }
}

fn tenants_query_text(tenant_expr: &str, table: &str, where_clause: &str) -> String {
    format!(
        "SELECT {tenant_expr} AS tenant, \
                uniqExact(namespace) AS namespaces, \
                uniqExact(u.pod_uid) AS pods, \
                sum(cpu_core_secs)/3600 AS cpu_core_hours, \
                sum(cpu_request_core_secs)/3600 AS cpu_request_core_hours, \
                sum(mem_ws_byte_secs)/3600/1073741824 AS mem_gib_hours, \
                sum(mem_request_byte_secs)/3600/1073741824 AS mem_request_gib_hours \
         FROM {table} AS u \
         LEFT JOIN (SELECT pod_uid, labels AS pod_labels FROM pod_meta FINAL) AS pm \
              ON u.pod_uid = pm.pod_uid \
         LEFT JOIN (SELECT name, labels AS ns_labels FROM namespaces FINAL) AS ns \
              ON u.namespace = ns.name \
         WHERE {where_clause} \
         GROUP BY tenant \
         ORDER BY cpu_core_hours DESC"
    )
}

#[test]
fn tenants_query_with_no_rules_is_unassigned() {
    let sql = tenants_sql(&[], "pod_usage_1h", "hour >= ? AND hour < ?").unwrap();
    assert_eq!(
        sql,
        tenants_query_text("'unassigned'", "pod_usage_1h", "hour >= ? AND hour < ?")
    );
    let q = tenant_range(Some(0), Some(86400));
    let plan = plan_tenants(&q, 0, &[]).ok().unwrap();
    assert_eq!((plan.from, plan.to), (0, 86400));
    assert_eq!(
        plan.sql,
        tenants_query_text(
            "'unassigned'",
            "pod_usage_1h",
            "hour >= toDateTime(?) AND hour < toDateTime(?)"
        )
    );
}

fn namespace_rule_without_value() -> TenantRule {
    TenantRule {
        matcher_type: MatcherType::NamespaceExact,
        match_key: String::new(),
        match_value: String::new(),
        tenant_source: TenantSource::Static,
        tenant_name: "shop".to_string(),
    }
}

#[test]
fn tenants_query_refuses_invalid_rules() {
    assert_eq!(
        tenants_sql(&[namespace_rule_without_value()], "pod_usage_1h", "x"),
        Err(RuleError::NamespaceMatcherNeedsValue)
    );
    let q = tenant_range(None, None);
    assert!(matches!(
        plan_tenants(&q, 0, &[namespace_rule_without_value()]),
        Err(RuleError::NamespaceMatcherNeedsValue)
    ));
}

#[test]
fn csv_export_pieces() {
    assert_eq!(csv_quote("shop"), "\"shop\"");
    assert_eq!(csv_quote("a\"b"), "\"a\"\"b\"");
    assert_eq!(csv_quote(""), "\"\"");
    assert_eq!(export_filename(0, 3600), "ekokube-tenants-0-3600.csv");
    assert_eq!(
        csv_header(),
        "tenant,namespaces,pods,cpu_core_hours,cpu_request_core_hours,\
         mem_gib_hours,mem_request_gib_hours,cost_requested,cost_used\n"
    );
    let q = tenant_range(Some(5), Some(9));
    assert_eq!((q.from, q.to), (Some(5), Some(9)));
    assert!(q.namespace.is_none() && q.limit.is_none() && q.offset.is_none());
}

#[test]
fn scoped_series_plan() {
    assert_eq!(series_step(0, 86400), (240, true, false));
    assert_eq!(series_step(0, 11 * 86400), (86400, false, true));
    assert_eq!(align_window(1000, 87_400, 240), (960, 87_360));
    assert_eq!(align_window(1000, 1000, 240), (960, 1200));
    assert!(align_fits(1000, 240));
    assert!(!align_fits(1000, 0));
    assert!(!align_fits(u32::MAX, 3600));

    let mut q = query(None, None);
    q.namespace = Some("shop".to_string());
    let p = plan_series(&q, 0, 86400);
    let step = 240;
    let scope = " AND namespace = ?";
    let sql = format!(
        "SELECT toStartOfInterval(ts, INTERVAL {step} SECOND) AS t, \
                sum(cpu_usage_millicores * sample_secs)/{step} AS cpu_usage, \
                sum(cpu_request_millicores * sample_secs)/{step} AS cpu_request, \
                sum(cpu_limit_millicores * sample_secs)/{step} AS cpu_limit, \
                sum(mem_working_set_bytes * sample_secs)/{step} AS mem_ws, \
                sum(mem_request_bytes * sample_secs)/{step} AS mem_request, \
                sum(mem_limit_bytes * sample_secs)/{step} AS mem_limit \
         FROM pod_usage WHERE ts >= toDateTime(?) AND ts < toDateTime(?){scope} \
         GROUP BY t ORDER BY t"
    );
    assert_eq!(p.sql, sql);
    assert_eq!((p.step, p.from, p.to), (240, 0, 86400));
    assert_eq!(p.binds, vec!["shop".to_string()]);
}

#[test]
fn sparkline_plan_per_workload() {
    assert_eq!(sparkline_step(0, 86400), 3600);
    assert_eq!(sparkline_step(0, 600), 60);
    let q = SparklineQuery {
        from: Some(0),
        to: Some(86400),
        entity: Some("workload".to_string()),
        namespace: Some("shop".to_string()),
    };
    let p = plan_sparklines(&q, 0, 86400);
    let step = 3600;
    let sql = format!(
        "SELECT workload_name AS key, toStartOfInterval(ts, INTERVAL {step} SECOND) AS t, \
                sum(cpu_usage_millicores * sample_secs)/{step} AS cpu \
         FROM pod_usage WHERE ts >= toDateTime(?) AND ts < toDateTime(?) AND namespace = ? \
         GROUP BY key, t ORDER BY key, t"
    );
    assert_eq!(p.sql, sql);
    assert_eq!(p.namespace, Some("shop".to_string()));

    let q = SparklineQuery { from: None, to: None, entity: None, namespace: None };
    let p = plan_sparklines(&q, 0, 30 * 86400);
    let step = 108_000;
    let sql = format!(
        "SELECT namespace AS key, toStartOfInterval(hour, INTERVAL {step} SECOND) AS t, \
                sum(cpu_core_secs * 1000)/{step} AS cpu \
         FROM pod_usage_1h WHERE hour >= toDateTime(?) AND hour < toDateTime(?) \
         GROUP BY key, t ORDER BY key, t"
    );
    assert_eq!(p.sql, sql);
    assert_eq!(p.namespace, None);
}

#[test]
fn points_group_into_series_in_first_seen_order() {
    let points = vec![
        ("b".to_string(), 10u32, 1.5f64),
        ("a".to_string(), 10, 2.0),
        ("b".to_string(), 20, 3.0),
        ("a".to_string(), 20, 4.0),
        ("c".to_string(), 20, 5.0),
    ];
    let series = group_series(&points);
    assert_eq!(series.len(), 3);
    assert_eq!(series[0].key, "b");
    assert_eq!(series[0].ts, vec![10, 20]);
    assert_eq!(series[0].values, vec![1.5, 3.0]);
    assert_eq!(series[1].key, "a");
    assert_eq!(series[1].values, vec![2.0, 4.0]);
    assert_eq!(series[2].key, "c");
    assert_eq!(series[2].ts, vec![20]);
    assert!(group_series::<f64>(&Vec::new()).is_empty());
}

#[test]
fn pages_keep_limit_rows_and_flag_more() {
    assert_eq!(paginate(vec![1, 2, 3], 2), (vec![1, 2], true));
    assert_eq!(paginate(vec![1, 2], 2), (vec![1, 2], false));
    assert_eq!(paginate(Vec::<u8>::new(), 0), (vec![], false));
    assert_eq!(paginate(vec![1], 0), (vec![], true));
}

#[test]
fn request_metrics_render_sorted_routes() {
    let mut m = RequestMetrics::new();
    m.record("/api/workloads", 1_500_000);
    m.record("/api/overview", 250);
    m.record("/api/workloads", 500_000);
    let expected = "# TYPE ekokube_http_requests_total counter\n\
                    # TYPE ekokube_http_request_duration_seconds_sum counter\n\
                    ekokube_http_requests_total{route=\"/api/overview\"} 1\n\
                    ekokube_http_request_duration_seconds_sum{route=\"/api/overview\"} 0.00025\n\
                    ekokube_http_requests_total{route=\"/api/workloads\"} 2\n\
                    ekokube_http_request_duration_seconds_sum{route=\"/api/workloads\"} 2\n";
    assert_eq!(m.render(), expected);
    // the same text as a float rendering of the totals
    assert_eq!(format!("{}", 250u64 as f64 / 1e6), "0.00025");
    assert_eq!(format!("{}", 2_000_000u64 as f64 / 1e6), "2");
    assert!(is_tracked_route("/api/overview"));
    assert!(!is_tracked_route("/metrics"));
    assert!(!is_tracked_route("/api"));
}

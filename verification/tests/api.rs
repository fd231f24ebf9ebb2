use ekokube::server::api::namespaces::plan_namespaces;
use ekokube::server::api::nodes::{lookup_node, plan_nodes};
use ekokube::server::api::overview::plan_overview;
use ekokube::server::api::pods::plan_pods;
use ekokube::server::api::workloads::plan_workloads;
use ekokube::server::api::{choose_bucket, scope_filter, RangeQuery};

fn query(from: Option<u32>, to: Option<u32>) -> RangeQuery {
    RangeQuery {
        from,
        to,
        namespace: None,
        workload: None,
        sort_by: None,
        order: None,
        limit: None,
        offset: None,
    }
}

#[test]
fn range_defaults_to_the_last_day_and_clamps_from() {
    let q = query(None, Some(1_000_000));
    assert_eq!(q.range_at(5), (913_600, 1_000_000));
    assert_eq!(q.range(), (913_600, 1_000_000));
    let q = query(None, None);
    assert_eq!(q.range_at(1_000_000), (913_600, 1_000_000));
    assert_eq!(q.range_at(100), (0, 100));
    let q = query(Some(500), Some(100));
    assert_eq!(q.range_at(0), (100, 100));
}

#[test]
fn rollup_choice_follows_range_length() {
    let q = query(Some(0), Some(3 * 86400));
    assert!(!q.use_daily_at(0));
    assert_eq!(q.pod_source_at(0), ("pod_usage_1h", "hour"));
    assert_eq!(q.pod_where_at(0), "hour >= toDateTime(?) AND hour < toDateTime(?)");
    let q = query(Some(0), Some(3 * 86400 + 1));
    assert!(q.use_daily_at(0));
    assert_eq!(q.pod_source_at(0), ("pod_usage_1d", "day"));
    assert_eq!(
        q.pod_where_at(0),
        "day >= toDate(toDateTime(?)) AND day < toDate(toDateTime(?))"
    );
    assert_eq!(q.pod_source(), ("pod_usage_1d", "day"));
    assert_eq!(
        q.pod_where(),
        "day >= toDate(toDateTime(?)) AND day < toDate(toDateTime(?))"
    );
}

#[test]
fn pod_range_snaps_to_the_bucket() {
    let q = query(Some(913_600), Some(1_000_000));
    assert_eq!(q.pod_range_at(0), (910_800, 1_000_000));
    assert_eq!(q.window_at(0), 89_200);
    let q = query(Some(100_000), Some(500_000));
    assert_eq!(q.pod_range_at(0), (86_400, 500_000));
    assert_eq!(q.pod_range(), (86_400, 500_000));
    // at least a minute long
    let q = query(Some(7200), Some(7200));
    assert_eq!(q.pod_range_at(0), (7200, 7260));
    assert_eq!(q.window_at(0), 60);
}

#[test]
fn limit_offset_and_sorting() {
    let mut q = query(None, None);
    assert_eq!(q.limit(), 50);
    assert_eq!(q.offset(), 0);
    q.limit = Some(1000);
    q.offset = Some(30);
    assert_eq!(q.limit(), 500);
    assert_eq!(q.offset(), 30);
    q.limit = Some(7);
    assert_eq!(q.limit(), 7);

    let allowed = ["cpu", "mem"];
    assert_eq!(q.sort_sql(&allowed, "cpu"), "cpu DESC");
    q.sort_by = Some("mem".to_string());
    q.order = Some("asc".to_string());
    assert_eq!(q.sort_sql(&allowed, "cpu"), "mem ASC");
    q.order = Some("ASC".to_string());
    assert_eq!(q.sort_sql(&allowed, "cpu"), "mem DESC");
    q.sort_by = Some("mem; DROP TABLE pod_usage".to_string());
    assert_eq!(q.sort_sql(&allowed, "cpu"), "cpu DESC");
}

#[test]
fn bucket_targets_about_360_points() {
    assert_eq!(choose_bucket(0, 3600), (15, true));
    assert_eq!(choose_bucket(0, 86400), (240, true));
    assert_eq!(choose_bucket(0, 48 * 3600), (480, true));
    assert_eq!(choose_bucket(0, 7 * 86400), (3600, false));
    assert_eq!(choose_bucket(0, 30 * 86400), (7200, false));
    assert_eq!(choose_bucket(100, 50), (15, true));
}

#[test]
fn scope_filter_binds_namespace_then_workload() {
    let mut q = query(None, None);
    assert_eq!(scope_filter(&q), (String::new(), Vec::<String>::new()));
    q.namespace = Some("shop".to_string());
    q.workload = Some("web".to_string());
    assert_eq!(
        scope_filter(&q),
        (
            " AND namespace = ? AND workload_name = ?".to_string(),
            vec!["shop".to_string(), "web".to_string()]
        )
    );
}

#[test]
fn overview_plan_for_a_day_reads_raw_tables() {
    let p = plan_overview(1000, 87_400);
    let step = 240;
    assert_eq!(p.step, step);
    assert_eq!((p.from, p.to), (960, 87_360));
    let pod_sql = format!(
        "SELECT toStartOfInterval(ts, INTERVAL {step} SECOND) AS t, \
                sum(cpu_usage_millicores * sample_secs)/{step} AS cpu_usage, \
                sum(cpu_request_millicores * sample_secs)/{step} AS cpu_request, \
                sum(mem_working_set_bytes * sample_secs)/{step} AS mem_ws, \
                sum(mem_request_bytes * sample_secs)/{step} AS mem_request \
         FROM pod_usage WHERE ts >= ? AND ts < ? GROUP BY t ORDER BY t"
    );
    assert_eq!(p.pod_sql, pod_sql);
    let node_sql = format!(
        "SELECT t, sum(used) AS cpu_used, sum(cap) AS cpu_capacity, \
                sum(mem_u) AS mem_used, sum(mem_t) AS mem_total \
         FROM ( \
           SELECT toStartOfInterval(ts, INTERVAL {step} SECOND) AS t, node, \
                  sum(cpu_used_millicores * sample_secs)/{step} AS used, \
                  toFloat64(max(cpu_capacity_millicores)) AS cap, \
                  sum(mem_used_bytes * sample_secs)/{step} AS mem_u, \
                  toFloat64(max(mem_total_bytes)) AS mem_t \
           FROM node_usage WHERE ts >= ? AND ts < ? GROUP BY t, node \
         ) GROUP BY t ORDER BY t"
    );
    assert_eq!(p.node_sql, node_sql);
    assert_eq!(
        p.summary_sql,
        "SELECT uniqExact(node) AS nodes, uniqExact(pod_uid) AS pods, \
                uniqExact(namespace) AS namespaces \
         FROM pod_usage WHERE ts >= now() - 300"
    );
}

#[test]
fn overview_plan_for_a_month_reads_daily_rollup() {
    let p = plan_overview(0, 30 * 86400 + 5000);
    let step = 86400;
    assert_eq!(p.step, step);
    assert_eq!((p.from, p.to), (0, 30 * 86400));
    let pod_sql = format!(
        "SELECT toDateTime(day) AS t, \
                sum(cpu_core_secs)*1000/{step} AS cpu_usage, \
                sum(cpu_request_core_secs)*1000/{step} AS cpu_request, \
                sum(mem_ws_byte_secs)/{step} AS mem_ws, \
                sum(mem_request_byte_secs)/{step} AS mem_request \
         FROM pod_usage_1d \
         WHERE day >= toDate(toDateTime(?)) AND day < toDate(toDateTime(?)) \
         GROUP BY t ORDER BY t"
    );
    assert_eq!(p.pod_sql, pod_sql);
    let node_sql = format!(
        "SELECT t, sum(used) AS cpu_used, sum(cap) AS cpu_capacity, \
                sum(mem_u) AS mem_used, sum(mem_t) AS mem_total \
         FROM ( \
           SELECT toStartOfInterval(hour, INTERVAL {step} SECOND) AS t, node, \
                  sum(cpu_used_core_secs)*1000/{step} AS used, \
                  toFloat64(max(cpu_capacity_max)) AS cap, \
                  sum(mem_used_byte_secs)/{step} AS mem_u, \
                  toFloat64(max(mem_total_max)) AS mem_t \
           FROM node_usage_1h WHERE hour >= ? AND hour < ? GROUP BY t, node \
         ) GROUP BY t ORDER BY t"
    );
    assert_eq!(p.node_sql, node_sql);
}

#[test]
fn overview_plan_for_a_week_reads_hourly_rollup() {
    let p = plan_overview(0, 7 * 86400);
    let step = 3600;
    assert_eq!(p.step, step);
    let pod_sql = format!(
        "SELECT toStartOfInterval(hour, INTERVAL {step} SECOND) AS t, \
                sum(cpu_core_secs)*1000/{step} AS cpu_usage, \
                sum(cpu_request_core_secs)*1000/{step} AS cpu_request, \
                sum(mem_ws_byte_secs)/{step} AS mem_ws, \
                sum(mem_request_byte_secs)/{step} AS mem_request \
         FROM pod_usage_1h WHERE hour >= ? AND hour < ? GROUP BY t ORDER BY t"
    );
    assert_eq!(p.pod_sql, pod_sql);
}

#[test]
fn namespaces_plan_matches_page_query() {
    let mut q = query(Some(0), Some(86400));
    q.sort_by = Some("pods".to_string());
    q.order = Some("asc".to_string());
    q.limit = Some(10);
    q.offset = Some(20);
    let p = plan_namespaces(&q, 0);
    assert_eq!((p.from, p.to), (0, 86400));
    let window = 86400.0f64;
    let table = "pod_usage_1h";
    let where_clause = "hour >= toDateTime(?) AND hour < toDateTime(?)";
    let sort = "pods ASC";
    let sql = format!(
        "SELECT namespace, \
                uniqExact(pod_uid) AS pods, \
                sum(cpu_core_secs)*1000/{window} AS cpu_usage_avg, \
                sum(cpu_request_core_secs)*1000/{window} AS cpu_request_avg, \
                cpu_request_avg - cpu_usage_avg AS cpu_waste, \
                sum(cpu_core_secs)/3600 AS cpu_core_hours, \
                sum(mem_ws_byte_secs)/{window} AS mem_usage_avg, \
                sum(mem_request_byte_secs)/{window} AS mem_request_avg, \
                mem_request_avg - mem_usage_avg AS mem_waste, \
                sum(mem_ws_byte_secs)/3600/1073741824 AS mem_gib_hours \
         FROM {table} \
         WHERE {where_clause} \
         GROUP BY namespace \
         ORDER BY {sort} \
         LIMIT ? OFFSET ?"
    );
    assert_eq!(p.sql, sql);
    assert!(p.binds.is_empty());
    assert_eq!((p.limit, p.offset), (10, 20));
}

#[test]
fn workloads_plan_with_and_without_namespace() {
    let q = query(Some(0), Some(10 * 86400));
    let p = plan_workloads(&q, 0);
    let window = (10.0 * 86400.0) as f64;
    let table = "pod_usage_1d";
    let where_clause = "day >= toDate(toDateTime(?)) AND day < toDate(toDateTime(?))";
    let sort = "cpu_waste DESC";
    for (namespace_filter, plan) in [
        ("", p),
        ("AND namespace = ?", {
            let mut q = query(Some(0), Some(10 * 86400));
            q.namespace = Some("shop".to_string());
            plan_workloads(&q, 0)
        }),
    ] {
        let sql = format!(
            "SELECT namespace, workload_kind, workload_name, \
                    uniqExact(pod_uid) AS pods, \
                    sum(cpu_core_secs)*1000/{window} AS cpu_usage_avg, \
                    sum(cpu_request_core_secs)*1000/{window} AS cpu_request_avg, \
                    cpu_request_avg - cpu_usage_avg AS cpu_waste, \
                    quantileTDigestMerge(0.95)(cpu_usage_p95) AS cpu_p95, \
                    max(cpu_throttled_max) AS cpu_throttled_max, \
                    sum(mem_ws_byte_secs)/{window} AS mem_usage_avg, \
                    sum(mem_request_byte_secs)/{window} AS mem_request_avg, \
                    mem_request_avg - mem_usage_avg AS mem_waste, \
                    max(mem_ws_max) AS mem_ws_max, \
                    max(psi_cpu_some_max) AS psi_cpu_max, \
                    max(psi_mem_some_max) AS psi_mem_max \
             FROM {table} \
             WHERE {where_clause} {namespace_filter} \
             GROUP BY namespace, workload_kind, workload_name \
             ORDER BY {sort} \
             LIMIT ? OFFSET ?"
        );
        assert_eq!(plan.sql, sql);
        if namespace_filter.is_empty() {
            assert!(plan.binds.is_empty());
        } else {
            assert_eq!(plan.binds, vec!["shop".to_string()]);
        }
        assert_eq!((plan.from, plan.to, plan.limit, plan.offset), (0, 864_000, 50, 0));
    }
}

#[test]
fn pods_plan_filters_and_binds_scope() {
    let mut q = query(Some(3600), Some(7200));
    q.namespace = Some("shop".to_string());
    q.workload = Some("web".to_string());
    q.sort_by = Some("runtime_secs".to_string());
    let p = plan_pods(&q, 0);
    let table = "pod_usage_1h";
    let where_clause = "hour >= toDateTime(?) AND hour < toDateTime(?)";
    let filters = " AND namespace = ? AND workload_name = ?";
    let sort = "runtime_secs DESC";
    let sql = format!(
        "SELECT pod_name, any(node) AS node, any(qos) AS qos, \
                sum(secs) AS runtime_secs, \
                sum(cpu_core_secs)*1000/sum(secs) AS cpu_usage_avg, \
                quantileTDigestMerge(0.95)(cpu_usage_p95) AS cpu_p95, \
                sum(cpu_request_core_secs)*1000/sum(secs) AS cpu_request, \
                sum(cpu_limit_core_secs)*1000/sum(secs) AS cpu_limit, \
                max(cpu_throttled_max) AS cpu_throttled_max, \
                sum(mem_ws_byte_secs)/sum(secs) AS mem_usage_avg, \
                max(mem_ws_max) AS mem_ws_max, \
                sum(mem_request_byte_secs)/sum(secs) AS mem_request, \
                max(psi_cpu_some_max) AS psi_cpu_max, \
                max(psi_mem_some_max) AS psi_mem_max \
         FROM {table} \
         WHERE {where_clause}{filters} \
         GROUP BY pod_name \
         ORDER BY {sort} \
         LIMIT ? OFFSET ?"
    );
    assert_eq!(p.sql, sql);
    assert_eq!(p.binds, vec!["shop".to_string(), "web".to_string()]);
    assert_eq!((p.from, p.to), (3600, 7200));
}

#[test]
fn nodes_plan_and_join() {
    let q = query(Some(5000), Some(10_000));
    let p = plan_nodes(&q, 0);
    assert_eq!((p.node_from, p.node_to), (3600, 10_000));
    assert_eq!((p.from, p.to), (3600, 10_000));
    assert_eq!(
        p.stats_sql,
        "SELECT node, \
                sum(cpu_used_core_secs)*1000/sum(secs) AS cpu_used_avg, \
                max(cpu_used_max) AS cpu_used_max, \
                max(cpu_capacity_max) AS cpu_capacity, \
                sum(mem_used_byte_secs)/sum(secs) AS mem_used_avg, \
                max(mem_used_max) AS mem_used_max, \
                max(mem_total_max) AS mem_total, \
                max(pod_count_max) AS pods \
         FROM node_usage_1h WHERE hour >= toDateTime(?) AND hour < toDateTime(?) \
         GROUP BY node ORDER BY node"
    );
    let window = 6400.0f64;
    let table = "pod_usage_1h";
    let where_clause = "hour >= toDateTime(?) AND hour < toDateTime(?)";
    let requested_sql = format!(
        "SELECT node, \
                sum(cpu_request_core_secs)*1000/{window} AS cpu_requested_avg, \
                sum(mem_request_byte_secs)/{window} AS mem_requested_avg \
         FROM {table} WHERE {where_clause} \
         GROUP BY node"
    );
    assert_eq!(p.requested_sql, requested_sql);
    assert_eq!(
        p.allocatable_sql,
        "SELECT name, cpu_allocatable_millicores, mem_allocatable_bytes \
             FROM nodes FINAL"
    );

    let rows = vec![
        ("a".to_string(), 1u32),
        ("b".to_string(), 2u32),
        ("a".to_string(), 3u32),
    ];
    assert_eq!(lookup_node(&rows, "a"), Some(3));
    assert_eq!(lookup_node(&rows, "b"), Some(2));
    assert_eq!(lookup_node(&rows, "c"), None);
}

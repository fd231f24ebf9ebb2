use ekokube::agent::cgroup::{psi_some_avg10, PodCounters, QosClass};
use ekokube::agent::collector::{
    capacity_millicores, counter_deltas, effective_qos, meta_refresh_due, node_delta, CycleState,
    PodDecision, UidMap,
};
use ekokube::agent::config::{Config, ConfigError};
use ekokube::agent::kubelet::{pods_url, PodMeta};
use ekokube::agent::metrics::{rows_counter_for, Metrics, RowsCounter};
use ekokube::agent::node::CpuTimes;
use ekokube::env::{env_or, env_var, is_true};
use ekokube::server::config::{Config as ServerConfig, ConfigError as ServerConfigError};
use ekokube::server::syncer::allocatable;

fn counters(usage: u64, periods: u64, throttled: u64) -> PodCounters {
    PodCounters {
        cpu_usage_usec: usage,
        cpu_nr_periods: periods,
        cpu_nr_throttled: throttled,
        mem_current: 0,
        mem_working_set: 0,
    }
}

fn vars(pairs: &[(&str, &str)]) -> Vec<(String, String)> {
    pairs.iter().map(|(k, v)| (k.to_string(), v.to_string())).collect()
}

#[test]
fn psi_avg10_is_read_from_the_some_line() {
    let cpu_pressure = "some avg10=1.50 avg60=0.80 avg300=0.20 total=123456\n\
                        full avg10=0.00 avg60=0.00 avg300=0.00 total=0\n";
    assert_eq!(psi_some_avg10(cpu_pressure), Some("1.50".to_string()));
    assert_eq!(psi_some_avg10("full avg10=3.00\n"), None);
    assert_eq!(psi_some_avg10(""), None);
    // a "some" line without avg10 does not stop the search
    assert_eq!(
        psi_some_avg10("some total=5\nsome avg60=1 avg10=7.25\n"),
        Some("7.25".to_string())
    );
    assert_eq!(psi_some_avg10("some avg10=\n"), Some(String::new()));
    assert_eq!(psi_some_avg10("someavg10=1\n"), None);
}

#[test]
fn uid_map_keeps_one_entry_per_uid() {
    let mut m: UidMap<u32> = UidMap::new();
    assert_eq!(m.insert("a".to_string(), 1), None);
    assert_eq!(m.insert("b".to_string(), 2), None);
    assert_eq!(m.insert("a".to_string(), 3), Some(1));
    assert_eq!(m.entries.len(), 2);
    assert_eq!(m.get("a"), Some(&3));
    assert!(m.contains("b"));
    assert!(!m.contains("c"));
    m.retain_seen(&vec!["b".to_string(), "z".to_string()]);
    assert!(!m.contains("a"));
    assert_eq!(m.get("b"), Some(&2));
    assert_eq!(m.entries.len(), 1);
}

#[test]
fn cycle_needs_two_samples_and_metadata() {
    let mut state: CycleState<u64> = CycleState::new();
    let uid = "11111111-2222-3333-4444-555555555555".to_string();
    // first sighting: no rate yet
    assert!(matches!(
        state.observe_pod(&uid, counters(5_000_000, 100, 25), 1_000, Some(7)),
        PodDecision::FirstSample
    ));
    // second sighting without kubelet metadata: nothing written
    assert!(matches!(
        state.observe_pod(&uid, counters(6_000_000, 110, 26), 2_000, None),
        PodDecision::NoMetadata
    ));
    // third sighting: deltas since the second sample, metadata written once
    match state.observe_pod(&uid, counters(7_500_000, 130, 30), 3_000, Some(7)) {
        PodDecision::Report { cpu_usage_usec, periods, throttled, since, write_meta } => {
            assert_eq!((cpu_usage_usec, periods, throttled), (1_500_000, 20, 4));
            assert_eq!(since, 2_000);
            assert!(write_meta);
        }
        _ => panic!("expected a report"),
    }
    match state.observe_pod(&uid, counters(7_000_000, 140, 31), 4_000, Some(7)) {
        PodDecision::Report { cpu_usage_usec, periods, throttled, since, write_meta } => {
            // a counter that went down counts as no growth
            assert_eq!((cpu_usage_usec, periods, throttled), (0, 10, 1));
            assert_eq!(since, 3_000);
            assert!(!write_meta);
        }
        _ => panic!("expected a report"),
    }
    // changed metadata is written again
    match state.observe_pod(&uid, counters(7_100_000, 150, 31), 5_000, Some(8)) {
        PodDecision::Report { write_meta, .. } => assert!(write_meta),
        _ => panic!("expected a report"),
    }
    assert_eq!(state.meta_written.get(&uid), Some(&8));
    // pods that disappear lose their state
    state.finish_cycle(&vec!["other".to_string()]);
    assert!(state.pod_prev.entries.is_empty());
    assert!(state.meta_written.entries.is_empty());
    assert!(matches!(
        state.observe_pod(&uid, counters(1, 1, 1), 6_000, Some(8)),
        PodDecision::FirstSample
    ));
}

#[test]
fn counter_and_node_deltas() {
    assert_eq!(
        counter_deltas(&counters(10, 5, 1), &counters(25, 4, 3)),
        (15, 0, 2)
    );
    let prev = CpuTimes { used_ticks: 100, total_ticks: 1000, num_cpus: 4 };
    let cur = CpuTimes { used_ticks: 250, total_ticks: 1600, num_cpus: 4 };
    assert_eq!(node_delta(None, cur), None);
    assert_eq!(node_delta(Some(prev), cur), Some((600, 150)));
    assert_eq!(node_delta(Some(cur), prev), None);
    assert_eq!(node_delta(Some(cur), cur), None);
    let fewer_used = CpuTimes { used_ticks: 50, total_ticks: 1700, num_cpus: 4 };
    assert_eq!(node_delta(Some(cur), fewer_used), Some((100, 0)));
    assert_eq!(capacity_millicores(4), 4000);
}

#[test]
fn qos_and_refresh_choices() {
    assert_eq!(effective_qos(&"Burstable".to_string(), QosClass::Guaranteed), "Burstable");
    assert_eq!(effective_qos(&String::new(), QosClass::BestEffort), "BestEffort");
    assert!(meta_refresh_due(None, 30, false));
    assert!(!meta_refresh_due(Some(29), 30, false));
    assert!(meta_refresh_due(Some(30), 30, false));
    assert!(meta_refresh_due(Some(0), 30, true));
}

#[test]
fn agent_metrics_exposition() {
    let mut m = Metrics::new();
    m.cycles_total = 3;
    m.cycle_duration_ms = 1250;
    m.pods_scraped = 7;
    m.add_rows("pod_usage", 10);
    m.add_rows("node_usage", 2);
    m.add_rows("pod_meta", 4);
    m.add_rows("anything_else", 1);
    m.insert_failures_total = 1;
    m.buffer_dropped_rows_total = 5;
    assert_eq!(m.rows_counter("pod_usage"), 10);
    assert_eq!(m.rows_counter("node_usage"), 2);
    assert_eq!(m.rows_counter("pod_meta"), 5);
    assert_eq!(rows_counter_for("pod_usage"), RowsCounter::PodUsage);
    assert_eq!(rows_counter_for("x"), RowsCounter::PodMeta);
    let expected = format!(
        "# TYPE ekokube_agent_cycles_total counter\n\
         ekokube_agent_cycles_total {}\n\
         # TYPE ekokube_agent_cycle_duration_seconds gauge\n\
         ekokube_agent_cycle_duration_seconds {}\n\
         # TYPE ekokube_agent_pods_scraped gauge\n\
         ekokube_agent_pods_scraped {}\n\
         # TYPE ekokube_agent_rows_written_total counter\n\
         ekokube_agent_rows_written_total{{table=\"pod_usage\"}} {}\n\
         ekokube_agent_rows_written_total{{table=\"node_usage\"}} {}\n\
         ekokube_agent_rows_written_total{{table=\"pod_meta\"}} {}\n\
         # TYPE ekokube_agent_insert_failures_total counter\n\
         ekokube_agent_insert_failures_total {}\n\
         # TYPE ekokube_agent_buffer_rows gauge\n\
         ekokube_agent_buffer_rows {}\n\
         # TYPE ekokube_agent_buffer_dropped_rows_total counter\n\
         ekokube_agent_buffer_dropped_rows_total {}\n",
        3,
        1250u64 as f64 / 1000.0,
        7,
        10,
        2,
        5,
        1,
        0,
        5,
    );
    assert_eq!(m.render(), expected);
    assert!(m.render().contains("ekokube_agent_cycle_duration_seconds 1.25\n"));
    let mut w = Metrics::new();
    w.pod_usage_rows_total = u64::MAX;
    w.add_rows("pod_usage", 2);
    assert_eq!(w.pod_usage_rows_total, 1);
}

#[test]
fn agent_config_from_environment() {
    assert!(matches!(Config::from_env(&vars(&[])), Err(ConfigError::MissingNodeName)));
    match Config::from_env(&vars(&[("HOSTNAME", "node-a")])) {
        Ok(c) => {
            assert_eq!(c.node_name, "node-a");
            assert_eq!(c.interval_secs, 15);
            assert_eq!(c.meta_interval_secs, 30);
            assert_eq!(c.cgroup_root, "/sys/fs/cgroup");
            assert_eq!(c.kubelet_url, "https://127.0.0.1:10250");
            assert_eq!(
                c.kubelet_token_path,
                "/var/run/secrets/kubernetes.io/serviceaccount/token"
            );
            assert!(c.kubelet_insecure_tls);
            assert_eq!(c.clickhouse_url, "http://localhost:8123");
            assert_eq!(c.clickhouse_database, "ekokube");
            assert_eq!(c.clickhouse_user, "default");
            assert_eq!(c.clickhouse_password, "");
            assert_eq!(c.metrics_addr, "0.0.0.0:9090");
            assert_eq!(c.buffer_max_rows, 250_000);
        }
        Err(e) => panic!("{}", e.message()),
    }
    match Config::from_env(&vars(&[
        ("HOSTNAME", "node-a"),
        ("EKOKUBE_NODE_NAME", "node-b"),
        ("EKOKUBE_INTERVAL_SECS", "+20"),
        ("EKOKUBE_KUBELET_INSECURE_TLS", "TRUE"),
        ("EKOKUBE_BUFFER_MAX_ROWS", "1000"),
    ])) {
        Ok(c) => {
            assert_eq!(c.node_name, "node-b");
            assert_eq!(c.interval_secs, 20);
            assert!(!c.kubelet_insecure_tls);
            assert_eq!(c.buffer_max_rows, 1000);
        }
        Err(e) => panic!("{}", e.message()),
    }
    let bad = |key: &str| Config::from_env(&vars(&[("HOSTNAME", "n"), (key, " 15")]));
    assert!(matches!(bad("EKOKUBE_INTERVAL_SECS"), Err(ConfigError::IntervalNotAnInteger)));
    assert!(matches!(
        bad("EKOKUBE_META_INTERVAL_SECS"),
        Err(ConfigError::MetaIntervalNotAnInteger)
    ));
    assert!(matches!(
        bad("EKOKUBE_BUFFER_MAX_ROWS"),
        Err(ConfigError::BufferMaxRowsNotAnInteger)
    ));
    assert_eq!(
        ConfigError::IntervalNotAnInteger.message(),
        "EKOKUBE_INTERVAL_SECS must be an integer"
    );
}

#[test]
fn server_config_from_environment() {
    match ServerConfig::from_env(&vars(&[])) {
        Ok(c) => {
            assert_eq!(c.listen_addr, "0.0.0.0:8080");
            assert_eq!(c.clickhouse_url, "http://localhost:8123");
            assert_eq!(c.clickhouse_database, "ekokube");
            assert_eq!(c.clickhouse_user, "default");
            assert_eq!(c.clickhouse_password, "");
            assert!(c.sync_enabled);
            assert_eq!(c.sync_interval_secs, 60);
            assert_eq!(c.auth_username, "");
            assert_eq!(c.auth_password, "");
        }
        Err(e) => panic!("{}", e.message()),
    }
    match ServerConfig::from_env(&vars(&[
        ("EKOKUBE_SYNC_ENABLED", "false"),
        ("EKOKUBE_AUTH_USERNAME", "admin"),
        ("EKOKUBE_SYNC_INTERVAL_SECS", "120"),
    ])) {
        Ok(c) => {
            assert!(!c.sync_enabled);
            assert_eq!(c.sync_interval_secs, 120);
            assert_eq!(c.auth_username, "admin");
        }
        Err(e) => panic!("{}", e.message()),
    }
    assert!(matches!(
        ServerConfig::from_env(&vars(&[("EKOKUBE_SYNC_INTERVAL_SECS", "1m")])),
        Err(ServerConfigError::SyncIntervalNotAnInteger)
    ));
}

#[test]
fn environment_lookup() {
    let v = vars(&[("A", "1"), ("B", "true")]);
    assert_eq!(env_var(&v, "A"), Some("1".to_string()));
    assert_eq!(env_var(&v, "C"), None);
    assert_eq!(env_or(&v, "C", "dflt"), "dflt");
    assert!(is_true(&"true".to_string()));
    assert!(!is_true(&"yes".to_string()));
}

#[test]
fn node_allocatable_from_quantities() {
    assert_eq!(allocatable(Some("3920m"), Some("16Gi")), (3920, 17_179_869_184));
    assert_eq!(allocatable(Some("4"), Some("1000Ki")), (4000, 1_024_000));
    assert_eq!(allocatable(None, Some("bogus")), (0, 0));
}

#[test]
fn clock_reads_seconds_since_the_epoch() {
    let t = ekokube::clock::now_epoch();
    assert!(t >= 1_600_000_000);
    let u = ekokube::server::api::now_epoch();
    assert!(u >= t && u - t <= 5);
}

#[test]
fn kubelet_pods_url_drops_trailing_slashes() {
    assert_eq!(pods_url("https://127.0.0.1:10250"), "https://127.0.0.1:10250/pods");
    assert_eq!(pods_url("https://127.0.0.1:10250//"), "https://127.0.0.1:10250/pods");
    assert_eq!(pods_url(""), "/pods");
}

#[test]
fn metadata_row_copies_the_pod_metadata() {
    let meta = PodMeta {
        uid: "u".to_string(),
        name: "web-1".to_string(),
        namespace: "shop".to_string(),
        labels: vec![("app".to_string(), "web".to_string())],
        workload_kind: "Deployment".to_string(),
        workload_name: "web".to_string(),
        qos_class: "Burstable".to_string(),
        cpu_request_millis: 100,
        cpu_limit_millis: 200,
        mem_request_bytes: 300,
        mem_limit_bytes: 400,
    };
    let row = ekokube::agent::model::meta_row(&"u".to_string(), &meta, &"node-a".to_string(), 42);
    assert_eq!(row.pod_uid, "u");
    assert_eq!(row.namespace, "shop");
    assert_eq!(row.pod_name, "web-1");
    assert_eq!(row.node, "node-a");
    assert_eq!(row.labels, vec![("app".to_string(), "web".to_string())]);
    assert_eq!((row.workload_kind.as_str(), row.workload_name.as_str()), ("Deployment", "web"));
    assert_eq!(row.updated_at, 42);
}

#[test]
fn clock_readings_truncate_to_u32() {
    assert_eq!(ekokube::clock::epoch_from(None), 0);
    assert_eq!(ekokube::clock::epoch_from(Some(1_794_979_665)), 1_794_979_665);
    assert_eq!(ekokube::clock::epoch_from(Some((1u64 << 32) + 7)), 7);
}

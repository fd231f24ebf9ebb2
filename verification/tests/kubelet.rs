use ekokube::agent::kubelet::{
    pod_totals_fit, resolve_workload, to_meta, Container, Metadata, OwnerReference, Pod,
    Resources, Spec, Status,
};

#[test]
fn replicaset_maps_to_deployment() {
    let refs = vec![(
        "ReplicaSet".to_string(),
        "api-server-7d9c8b6f5".to_string(),
        true,
    )];
    assert_eq!(
        resolve_workload(&refs, "api-server-7d9c8b6f5-x2kl9"),
        ("Deployment".to_string(), "api-server".to_string())
    );
}

#[test]
fn other_kinds_pass_through() {
    let refs = vec![("StatefulSet".to_string(), "clickhouse".to_string(), true)];
    assert_eq!(
        resolve_workload(&refs, "clickhouse-0"),
        ("StatefulSet".to_string(), "clickhouse".to_string())
    );
    let refs = vec![("DaemonSet".to_string(), "ekokube-agent".to_string(), true)];
    assert_eq!(resolve_workload(&refs, "x").0, "DaemonSet");
}

#[test]
fn bare_pod_is_its_own_workload() {
    assert_eq!(
        resolve_workload(&[], "debug-pod"),
        ("Pod".to_string(), "debug-pod".to_string())
    );
}

#[test]
fn controller_reference_wins_and_odd_replicaset_names_stay() {
    let refs = vec![
        ("Job".to_string(), "first".to_string(), false),
        ("ReplicaSet".to_string(), "-abc".to_string(), true),
    ];
    assert_eq!(
        resolve_workload(&refs, "p"),
        ("Deployment".to_string(), "-abc".to_string())
    );
    let refs = vec![("ReplicaSet".to_string(), "nodash".to_string(), false)];
    assert_eq!(
        resolve_workload(&refs, "p"),
        ("Deployment".to_string(), "nodash".to_string())
    );
}

fn map(pairs: &[(&str, &str)]) -> Vec<(String, String)> {
    pairs.iter().map(|(k, v)| (k.to_string(), v.to_string())).collect()
}

#[test]
fn parses_kubelet_pod_json() {
    let pod = Pod {
        metadata: Metadata {
            name: "web-6f8d4b9c7d-abcde".to_string(),
            namespace: "shop".to_string(),
            uid: "11111111-2222-3333-4444-555555555555".to_string(),
            labels: map(&[("app", "web"), ("team", "checkout")]),
            owner_references: vec![OwnerReference {
                kind: "ReplicaSet".to_string(),
                name: "web-6f8d4b9c7d".to_string(),
                controller: true,
            }],
        },
        spec: Spec {
            containers: vec![
                Container {
                    resources: Resources {
                        requests: map(&[("cpu", "250m"), ("memory", "256Mi")]),
                        limits: map(&[("cpu", "1"), ("memory", "512Mi")]),
                    },
                },
                Container {
                    resources: Resources {
                        requests: map(&[("cpu", "50m"), ("memory", "64Mi")]),
                        limits: vec![],
                    },
                },
            ],
        },
        status: Status { qos_class: Some("Burstable".to_string()) },
    };
    assert!(pod_totals_fit(&pod));
    let meta = to_meta(pod);
    assert_eq!(meta.namespace, "shop");
    assert_eq!(meta.workload_kind, "Deployment");
    assert_eq!(meta.workload_name, "web");
    assert_eq!(meta.cpu_request_millis, 300);
    assert_eq!(meta.cpu_limit_millis, 1000);
    assert_eq!(meta.mem_request_bytes, (256 + 64) * 1024 * 1024);
    assert_eq!(meta.mem_limit_bytes, 512 * 1024 * 1024);
    assert_eq!(meta.qos_class, "Burstable");
    assert_eq!(meta.labels.len(), 2);
}

#[test]
fn unparsable_quantities_count_as_zero() {
    let pod = Pod {
        metadata: Metadata {
            name: "p".to_string(),
            namespace: "n".to_string(),
            uid: "u".to_string(),
            labels: vec![],
            owner_references: vec![],
        },
        spec: Spec {
            containers: vec![Container {
                resources: Resources {
                    requests: map(&[("cpu", "lots"), ("memory", "1Ki")]),
                    limits: vec![],
                },
            }],
        },
        status: Status { qos_class: None },
    };
    let meta = to_meta(pod);
    assert_eq!(meta.cpu_request_millis, 0);
    assert_eq!(meta.mem_request_bytes, 1024);
    assert_eq!(meta.qos_class, "");
    assert_eq!((meta.workload_kind.as_str(), meta.workload_name.as_str()), ("Pod", "p"));
}

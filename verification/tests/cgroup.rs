use ekokube::agent::cgroup::{
    discover_pods, needs_listing, parse_pod_dir_name, pod_counters, qos_level, root_search_step,
    search_level, CgroupDir, CgroupLeaf, LevelOutcome, PodCounters, QosClass, RootSearch,
};

#[test]
fn parses_systemd_slice_names() {
    let (uid, qos) =
        parse_pod_dir_name("kubepods-burstable-pod3b4c1f9e_1a2b_4c3d_9e8f_001122334455.slice")
            .unwrap();
    assert_eq!(uid, "3b4c1f9e-1a2b-4c3d-9e8f-001122334455");
    assert_eq!(qos, Some(QosClass::Burstable));

    let (uid, qos) =
        parse_pod_dir_name("kubepods-pod00000000_0000_0000_0000_000000000000.slice").unwrap();
    assert_eq!(uid, "00000000-0000-0000-0000-000000000000");
    assert_eq!(qos, Some(QosClass::Guaranteed));

    let (_, qos) =
        parse_pod_dir_name("kubepods-besteffort-podaaaaaaaa_bbbb_cccc_dddd_eeeeeeeeeeee.slice")
            .unwrap();
    assert_eq!(qos, Some(QosClass::BestEffort));
}

#[test]
fn parses_cgroupfs_names() {
    let (uid, qos) = parse_pod_dir_name("pod3b4c1f9e-1a2b-4c3d-9e8f-001122334455").unwrap();
    assert_eq!(uid, "3b4c1f9e-1a2b-4c3d-9e8f-001122334455");
    assert_eq!(qos, None);
}

#[test]
fn parses_kind_style_prefixed_slices() {
    let (uid, qos) = parse_pod_dir_name(
        "kubelet-kubepods-burstable-pod48643658_2204_40c0_aa69_2bc5eec55d38.slice",
    )
    .unwrap();
    assert_eq!(uid, "48643658-2204-40c0-aa69-2bc5eec55d38");
    assert_eq!(qos, Some(QosClass::Burstable));

    let (_, qos) =
        parse_pod_dir_name("kubelet-kubepods-pod48643658_2204_40c0_aa69_2bc5eec55d38.slice")
            .unwrap();
    assert_eq!(qos, Some(QosClass::Guaranteed));
}

#[test]
fn rejects_non_pod_dirs() {
    assert!(parse_pod_dir_name("kubepods-burstable.slice").is_none());
    assert!(parse_pod_dir_name("system.slice").is_none());
    assert!(parse_pod_dir_name("podinfo").is_none());
    assert!(parse_pod_dir_name("kubepods-podnotauid.slice").is_none());
}

/// Breadth-first search for the kubepods root, three levels deep, over an
/// in-memory tree given as the directory paths under `root`.
fn find_root(root: &str, dirs: &[&str]) -> Option<String> {
    let list = |dir: &str| -> Vec<(String, String)> {
        dirs.iter()
            .filter_map(|p| {
                let rest = p.strip_prefix(dir)?.strip_prefix('/')?;
                if rest.contains('/') {
                    None
                } else {
                    Some((rest.to_string(), p.to_string()))
                }
            })
            .collect()
    };
    let mut level = vec![root.to_string()];
    for _ in 0..3 {
        let listed: Vec<(String, String)> = level.iter().flat_map(|d| list(d)).collect();
        match search_level(&listed) {
            LevelOutcome::Found(path) => return Some(path),
            LevelOutcome::Next(next) => level = next,
        }
    }
    None
}

#[test]
fn finds_nested_kubepods_root() {
    let dirs = [
        "/cg/kubelet.slice",
        "/cg/kubelet.slice/kubelet-kubepods.slice",
        "/cg/system.slice",
        "/cg/system.slice/ssh.service",
    ];
    assert_eq!(
        find_root("/cg", &dirs).unwrap(),
        "/cg/kubelet.slice/kubelet-kubepods.slice"
    );
    assert_eq!(root_search_step("init.scope"), RootSearch::Skip);
    assert_eq!(root_search_step("kubepods"), RootSearch::Found);
}

#[test]
fn root_search_skips_scopes_and_stops_at_depth_three() {
    let dirs = ["/cg/a", "/cg/a/b", "/cg/a/b/c", "/cg/a/b/c/kubepods"];
    assert_eq!(find_root("/cg", &dirs), None);
    let dirs = ["/cg/a", "/cg/a/b", "/cg/a/b/kubepods"];
    assert_eq!(find_root("/cg", &dirs).unwrap(), "/cg/a/b/kubepods");
    let dirs = ["/cg/x.scope", "/cg/x.scope/kubepods"];
    assert_eq!(find_root("/cg", &dirs), None);
    match search_level(&vec![
        ("a".to_string(), "/a".to_string()),
        ("b.scope".to_string(), "/b.scope".to_string()),
        ("kubepods".to_string(), "/kubepods".to_string()),
        ("kubepods2".to_string(), "/kubepods2".to_string()),
    ]) {
        LevelOutcome::Found(p) => assert_eq!(p, "/kubepods"),
        LevelOutcome::Next(_) => panic!("expected the root"),
    }
    match search_level(&vec![
        ("a".to_string(), "/a".to_string()),
        ("b.scope".to_string(), "/b.scope".to_string()),
        ("c".to_string(), "/c".to_string()),
    ]) {
        LevelOutcome::Found(_) => panic!("no root on this level"),
        LevelOutcome::Next(n) => assert_eq!(n, vec!["/a".to_string(), "/c".to_string()]),
    }
}

#[test]
fn discovers_and_reads_fake_tree() {
    let root = "/sys/fs/cgroup/kubepods.slice";
    let qos_dir = "kubepods-burstable.slice";
    let pod_dir = "kubepods-burstable-pod11111111_2222_3333_4444_555555555555.slice";
    assert!(needs_listing(qos_dir));
    assert!(!needs_listing(pod_dir));
    let dirs = vec![CgroupDir {
        name: qos_dir.to_string(),
        path: format!("{root}/{qos_dir}"),
        children: vec![CgroupLeaf {
            name: pod_dir.to_string(),
            path: format!("{root}/{qos_dir}/{pod_dir}"),
        }],
    }];
    let pods = discover_pods(&dirs);
    assert_eq!(pods.len(), 1);
    assert_eq!(pods[0].uid, "11111111-2222-3333-4444-555555555555");
    assert_eq!(pods[0].qos, QosClass::Burstable);
    assert_eq!(pods[0].path, format!("{root}/{qos_dir}/{pod_dir}"));

    let stats = pod_counters(
        Some("usage_usec 5000000\nuser_usec 4000000\nsystem_usec 1000000\nnr_periods 100\nnr_throttled 25\nthrottled_usec 900000\n"),
        Some("104857600\n"),
        Some("anon 73400320\nfile 31457280\ninactive_file 20971520\nactive_file 10485760\n"),
    );
    assert_eq!(stats.cpu_usage_usec, 5_000_000);
    assert_eq!(stats.cpu_nr_periods, 100);
    assert_eq!(stats.cpu_nr_throttled, 25);
    assert_eq!(stats.mem_current, 104_857_600);
    assert_eq!(stats.mem_working_set, 104_857_600 - 20_971_520);
}

#[test]
fn missing_counter_files_read_as_zero() {
    let stats = pod_counters(None, None, None);
    assert_eq!(
        stats,
        PodCounters {
            cpu_usage_usec: 0,
            cpu_nr_periods: 0,
            cpu_nr_throttled: 0,
            mem_current: 0,
            mem_working_set: 0,
        }
    );
    // inactive file cache above the current usage saturates at zero
    let stats = pod_counters(Some("usage_usec x\n"), Some(" 10 "), Some("inactive_file 50\n"));
    assert_eq!(stats.cpu_usage_usec, 0);
    assert_eq!(stats.mem_current, 10);
    assert_eq!(stats.mem_working_set, 0);
    // only the first inactive_file line counts
    let stats = pod_counters(None, Some("100"), Some("inactive_file 30\ninactive_file 60\n"));
    assert_eq!(stats.mem_working_set, 70);
}

#[test]
fn discovery_uses_parent_qos_and_skips_other_dirs() {
    let dirs = vec![
        CgroupDir {
            name: "pod3b4c1f9e-1a2b-4c3d-9e8f-001122334455".to_string(),
            path: "r/pod3b4c1f9e-1a2b-4c3d-9e8f-001122334455".to_string(),
            children: vec![],
        },
        CgroupDir {
            name: "besteffort".to_string(),
            path: "r/besteffort".to_string(),
            children: vec![
                CgroupLeaf {
                    name: "podaaaaaaaa-bbbb-cccc-dddd-eeeeeeeeeeee".to_string(),
                    path: "r/besteffort/podaaaaaaaa-bbbb-cccc-dddd-eeeeeeeeeeee".to_string(),
                },
                CgroupLeaf { name: "notapod".to_string(), path: "r/besteffort/notapod".to_string() },
            ],
        },
        CgroupDir { name: "system".to_string(), path: "r/system".to_string(), children: vec![] },
    ];
    let pods = discover_pods(&dirs);
    assert_eq!(pods.len(), 2);
    assert_eq!(pods[0].qos, QosClass::Guaranteed);
    assert_eq!(pods[1].uid, "aaaaaaaa-bbbb-cccc-dddd-eeeeeeeeeeee");
    assert_eq!(pods[1].qos, QosClass::BestEffort);
    assert_eq!(qos_level("kubepods-burstable.slice"), Some(QosClass::Burstable));
    assert_eq!(qos_level("system.slice"), None);
    assert_eq!(QosClass::BestEffort.as_str(), "BestEffort");
}

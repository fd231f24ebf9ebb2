use ekokube::agent::node::{cpu_times_fit, meminfo_fits, read_cpu_times, read_meminfo};

#[test]
fn parses_proc_stat() {
    let content = "cpu  100 0 50 800 50 0 0 0 0 0\ncpu0 50 0 25 400 25 0 0 0 0 0\ncpu1 50 0 25 400 25 0 0 0 0 0\nintr 12345\n";
    assert!(cpu_times_fit(content));
    let t = read_cpu_times(content);
    assert_eq!(t.num_cpus, 2);
    assert_eq!(t.total_ticks, 1000);
    assert_eq!(t.used_ticks, 150); // total - idle(800) - iowait(50)
}

#[test]
fn parses_meminfo() {
    let content = "MemTotal:       16384000 kB\nMemFree:         1024000 kB\nMemAvailable:    8192000 kB\n";
    assert!(meminfo_fits(content));
    let m = read_meminfo(content);
    assert_eq!(m.total_bytes, 16_384_000 * 1024);
    assert_eq!(m.used_bytes, (16_384_000 - 8_192_000) * 1024);
}

#[test]
fn proc_stat_edge_cases() {
    // short aggregate line: missing idle/iowait count as zero, bad fields are skipped
    let t = read_cpu_times("cpu 10 x 5\r\ncpu0 1\n");
    assert_eq!(t.total_ticks, 15);
    assert_eq!(t.used_ticks, 15);
    assert_eq!(t.num_cpus, 1);
    // an overflowing sum is refused up front
    assert!(!cpu_times_fit("cpu 18446744073709551615 1\n"));
    let m = read_meminfo("MemAvailable: 10 kB\nMemTotal: 4 kB\n");
    assert_eq!(m.total_bytes, 4096);
    assert_eq!(m.used_bytes, 0);
    assert!(!meminfo_fits("MemTotal: 18446744073709551615 kB\n"));
}

use ekokube::agent::sink::{Buffers, Pending};

fn batch(n: usize) -> Vec<u32> {
    vec![0; n]
}

#[test]
fn push_tracks_rows_and_skips_empty() {
    let mut p: Pending<u32> = Pending::new("t");
    p.push(batch(0));
    p.push(batch(3));
    p.push(batch(2));
    assert_eq!(p.rows, 5);
    assert_eq!(p.batches.len(), 2);
}

#[test]
fn cap_drops_oldest_first() {
    let mut p: Pending<u32> = Pending::new("t");
    p.push(vec![1, 1, 1]);
    p.push(vec![2, 2]);
    p.push(vec![3]);
    let dropped = p.enforce_cap(4);
    assert_eq!(dropped, 3); // the oldest batch of 3
    assert_eq!(p.rows, 3);
    assert_eq!(p.batches.front().unwrap()[0], 2);

    // dropping continues until under the cap
    let dropped = p.enforce_cap(0);
    assert_eq!(dropped, 3);
    assert_eq!(p.rows, 0);
    assert!(p.batches.is_empty());
}

#[test]
fn cap_noop_when_under() {
    let mut p: Pending<u32> = Pending::new("t");
    p.push(batch(5));
    assert_eq!(p.enforce_cap(5), 0);
    assert_eq!(p.rows, 5);
}

#[test]
fn completed_batches_leave_front_first() {
    let mut p: Pending<u32> = Pending::new("t");
    p.push(vec![1]);
    p.push(vec![2, 2]);
    assert_eq!(p.complete_front(), Some(vec![1]));
    assert_eq!(p.rows, 2);
    assert_eq!(p.complete_front(), Some(vec![2, 2]));
    assert_eq!(p.complete_front(), None);
    assert_eq!(p.rows, 0);
}

#[test]
fn cycle_caps_usage_tables_but_never_metadata() {
    let mut b: Buffers<u8, u8, u8> = Buffers::new();
    assert_eq!(b.pod_usage.table, "pod_usage");
    let dropped = b.push_cycle(vec![0; 8], vec![0; 3], vec![0; 50], 10);
    // pod usage may keep 9 rows, node usage 1
    assert_eq!(dropped, 3);
    assert_eq!(b.pod_usage.rows, 8);
    assert_eq!(b.node_usage.rows, 0);
    assert_eq!(b.pod_meta.rows, 50);
    let dropped = b.push_cycle(vec![0; 4], vec![], vec![], 10);
    assert_eq!(dropped, 8);
    assert_eq!(b.pod_usage.rows, 4);
    assert_eq!(b.buffered_rows(), 54);
}

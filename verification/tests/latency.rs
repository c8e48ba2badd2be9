use pointer_horror::latency::{
    add_to_checksum, bar, bar_len, bar_scale, latency_summary, make_batch, progress_filled,
    progress_meter, spin_frame, LatencySummary, Node, BATCH_COUNT, BATCH_SIZE,
};

#[test]
fn summary_of_sorted_times() {
    let mut times: Vec<u128> = (1..=100).rev().collect();
    let s = latency_summary(&mut times);
    assert_eq!(s, LatencySummary { p50: 51, p95: 96, max: 100 });
    assert_eq!(times, (1..=100).collect::<Vec<u128>>());
}

#[test]
fn summary_of_a_full_run() {
    let mut times: Vec<u128> = (0..BATCH_COUNT as u128).map(|i| (i * 7919) % 500).collect();
    let s = latency_summary(&mut times);
    assert_eq!(s.p50, 250);
    assert_eq!(s.p95, 475);
    assert_eq!(s.max, 499);
}

#[test]
fn summary_single_time() {
    let mut times = vec![17u128];
    assert_eq!(latency_summary(&mut times), LatencySummary { p50: 17, p95: 17, max: 17 });
}

#[test]
fn summary_ignores_recording_order() {
    let mut a = vec![5u128, 1, 9, 3, 3, 8, 2];
    let mut b = vec![3u128, 9, 2, 8, 1, 5, 3];
    let sa = latency_summary(&mut a);
    let sb = latency_summary(&mut b);
    assert_eq!(sa, sb);
    assert_eq!(sa, LatencySummary { p50: 3, p95: 9, max: 9 });
    assert!(sa.p50 <= sa.p95 && sa.p95 <= sa.max);
}

#[test]
fn bar_scale_never_zero() {
    assert_eq!(bar_scale(0), 1);
    assert_eq!(bar_scale(250), 250);
}

#[test]
fn bar_lengths() {
    assert_eq!(bar_len(100, 100), 30);
    assert_eq!(bar_len(50, 100), 15);
    assert_eq!(bar_len(0, 100), 0);
    assert_eq!(bar_len(9, 100), 2);
    assert_eq!(bar(100, 100), "█".repeat(30));
    assert_eq!(bar(50, 100), "█".repeat(15));
    assert_eq!(bar(0, 1), "");
}

#[test]
fn progress_meter_fills_up() {
    assert_eq!(progress_filled(1, BATCH_COUNT), 0);
    assert_eq!(progress_filled(250, BATCH_COUNT), 19);
    assert_eq!(progress_filled(BATCH_COUNT, BATCH_COUNT), 38);
    let mut last = 0;
    for done in 1..=BATCH_COUNT {
        let f = progress_filled(done, BATCH_COUNT);
        assert!(f >= last && f <= 38);
        last = f;
    }
    let full = progress_meter(BATCH_COUNT, BATCH_COUNT);
    assert_eq!(full, "\x1b[92m▓\x1b[0m".repeat(38));
    let half = progress_meter(250, BATCH_COUNT);
    assert_eq!(half, format!("{}{}", "\x1b[92m▓\x1b[0m".repeat(19), "\x1b[2m░\x1b[0m".repeat(19)));
}

#[test]
fn spinner_cycles() {
    assert_eq!(spin_frame(0), "⠋");
    assert_eq!(spin_frame(9), "⠏");
    assert_eq!(spin_frame(10), "⠋");
    assert_eq!(spin_frame(13), "⠸");
}

#[test]
fn batch_nodes_hold_multiples() {
    let nodes = make_batch(BATCH_SIZE);
    assert_eq!(nodes.len(), 1000);
    assert_eq!(*nodes[7], Node { a: 7, b: 14, c: 21, d: 28, e: 35, f: 42 });
    assert_eq!(nodes[999].f, 5994);
}

#[test]
fn checksum_of_a_run() {
    let mut checksum: i64 = 0;
    for _ in 0..BATCH_COUNT {
        let nodes = make_batch(BATCH_SIZE);
        checksum = add_to_checksum(checksum, &nodes);
    }
    assert_eq!(checksum, 249_750_000);
    assert_eq!(add_to_checksum(10, &make_batch(0)), 10);
    assert_eq!(add_to_checksum(0, &make_batch(4)), 6);
}

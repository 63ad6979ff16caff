use websockproxy_relay::traffic::{
    saturating_usize_to_u64, DirectionCounter, DirectionTotals, TrafficHistory, TrafficStats,
    TrafficTotals,
};

fn totals(bytes: u64) -> TrafficTotals {
    TrafficTotals {
        websocket_rx: DirectionTotals { frames: 1, bytes },
        ..TrafficTotals::default()
    }
}

#[test]
fn traffic_stats_snapshot_uses_background_samples() {
    let mut stats = TrafficStats::new();

    stats.record_websocket_rx(100);
    stats.record_websocket_tx_batch(2, 40);
    stats.record_tap_rx(10);
    stats.sample_at(1);

    stats.record_websocket_rx(50);
    stats.record_tap_tx(25);
    stats.sample_at(6);

    let snapshot = stats.snapshot_at(6, 3);
    assert_eq!(snapshot.uptime_seconds, 6);
    assert_eq!(snapshot.recent_window_seconds, 5);
    assert_eq!(snapshot.connected_clients, 3);
    assert_eq!(snapshot.websocket_rx.frames, 2);
    assert_eq!(snapshot.websocket_rx.bytes, 150);
    assert_eq!(snapshot.websocket_rx.recent_frames, 1);
    assert_eq!(snapshot.websocket_rx.recent_bytes, 50);
    assert_eq!(snapshot.websocket_tx.frames, 2);
    assert_eq!(snapshot.websocket_tx.recent_bytes, 0);
    assert_eq!(snapshot.tap_rx.bytes, 10);
    assert_eq!(snapshot.tap_tx.recent_bytes, 25);
    assert_eq!(snapshot.current_bps, 15);
}

#[test]
fn the_window_grows_to_five_seconds() {
    let mut stats = TrafficStats::new();
    stats.record_tap_rx(60);

    assert_eq!(stats.snapshot_at(0, 0).recent_window_seconds, 1);
    assert_eq!(stats.snapshot_at(1, 0).recent_window_seconds, 1);
    assert_eq!(stats.snapshot_at(4, 0).recent_window_seconds, 4);
    assert_eq!(stats.snapshot_at(5, 0).recent_window_seconds, 5);
    assert_eq!(stats.snapshot_at(900, 0).recent_window_seconds, 5);
    assert_eq!(stats.snapshot_at(4, 0).tap_rx.recent_bps, 15);
    assert_eq!(stats.snapshot_at(4, 0).current_bps, 15);
}

#[test]
fn a_sample_stays_the_baseline_for_the_window() {
    let mut history = TrafficHistory::new();
    history.record(7, totals(70));
    for second in 8..=12 {
        history.record(second, totals(10 * second));
    }

    assert_eq!(history.baseline(7), totals(70));
    assert_eq!(history.baseline(9), totals(90));
    assert_eq!(history.baseline(50), totals(120));
    assert_eq!(history.baseline(6), TrafficTotals::default());

    history.record(13, totals(130));
    assert_eq!(history.baseline(7), TrafficTotals::default());
}

#[test]
fn an_empty_slot_reads_as_second_zero() {
    let mut history = TrafficHistory::new();
    history.record(0, totals(5));

    assert_eq!(history.baseline(0), TrafficTotals::default());
}

#[test]
fn totals_never_go_below_zero() {
    let older = DirectionTotals { frames: 5, bytes: 10 };
    let newer = DirectionTotals { frames: 7, bytes: 4 };

    assert_eq!(
        newer.saturating_sub(older),
        DirectionTotals { frames: 2, bytes: 0 }
    );
    assert_eq!(totals(9).saturating_sub(totals(4)).websocket_rx.bytes, 5);
}

#[test]
fn the_byte_sum_is_capped() {
    let mut all = totals(u64::MAX);
    assert_eq!(all.total_bytes(), u64::MAX);
    all.tap_tx.bytes = 3;
    assert_eq!(all.total_bytes(), u64::MAX);
    all.websocket_rx.bytes = 1;
    all.tap_rx.bytes = 10;
    assert_eq!(all.total_bytes(), 14);
}

#[test]
fn a_counter_starts_again_after_its_largest_value() {
    let mut counter = DirectionCounter::new();
    counter.record(u64::MAX, 8);
    counter.record(2, u64::MAX);

    assert_eq!(counter.snapshot(), DirectionTotals { frames: 1, bytes: 7 });
}

#[test]
fn the_clock_drives_samples_and_snapshots() {
    let mut stats = TrafficStats::new();
    stats.record_websocket_rx(12);
    let sampled = stats.sample();

    let (snapshot, read) = stats.snapshot(4);
    assert_eq!(snapshot.connected_clients, 4);
    assert_eq!(snapshot.websocket_rx.bytes, 12);
    assert_eq!(snapshot.uptime_seconds, read.as_secs());
    assert!(sampled.as_secs() <= read.as_secs());
    assert!(read.as_secs() <= stats.elapsed_seconds().as_secs());
}

#[test]
fn recent_figures_stay_below_the_totals() {
    let mut stats = TrafficStats::new();
    stats.record_websocket_tx_batch(3, 300);
    stats.sample_at(1);
    stats.record_websocket_tx_batch(1, 7);

    let figures = stats.snapshot_at(6, 0).websocket_tx;
    assert_eq!(figures.frames, 4);
    assert_eq!(figures.bytes, 307);
    assert_eq!(figures.recent_frames, 1);
    assert_eq!(figures.recent_bytes, 7);
    assert_eq!(figures.recent_bps, 1);
}

#[test]
fn a_length_keeps_its_value() {
    assert_eq!(saturating_usize_to_u64(0), 0);
    assert_eq!(saturating_usize_to_u64(1518), 1518);
}

use adb_metrics::frames::FrameReport;
use adb_metrics::history::{
    derive_frame_rate, frame_stats, traffic_stats, FrameSample, FrameStats, HistoryStore,
    TrafficSample, TrafficStats,
};
use adb_metrics::quantity::Quantity;
use adb_metrics::traffic::TrafficCounters;

fn ratio(numerator: u128, denominator: u128) -> Quantity {
    Quantity::Ratio { numerator, denominator }
}

fn value(q: &Quantity) -> f64 {
    match q {
        Quantity::Reading { numeral, divisor } => numeral.parse::<f64>().unwrap() / *divisor as f64,
        Quantity::Ratio { numerator, denominator } => *numerator as f64 / *denominator as f64,
    }
}

fn report(total_frames: u64) -> FrameReport {
    FrameReport { total_frames, janky_frames: None, percentile_90: None, percentile_95: None }
}

#[test]
fn first_frame_observation_falls_back_and_is_kept() {
    let mut store = HistoryStore::new();
    assert_eq!(store.last_frames("dev", "app"), None);
    let stats = store.observe_frames("dev", "app", report(1000), 5_000);
    assert_eq!(stats.fps, ratio(60, 1));
    assert_eq!(store.last_frames("dev", "app"), Some(FrameSample { total_frames: 1000, timestamp: 5_000 }));
    assert_eq!(store.last_frames("dev", "other"), None);
    assert_eq!(store.last_traffic("dev", "app"), None);
}

#[test]
fn frame_rate_over_three_observations() {
    let mut store = HistoryStore::new();
    let first = store.observe_frames("dev", "app", report(1000), 10_000);
    assert_eq!(value(&first.fps), 60.0);
    let second = store.observe_frames("dev", "app", report(1030), 10_500);
    assert_eq!(second.fps, ratio(30_000, 500));
    assert_eq!(value(&second.fps), 60.0);
    let third = store.observe_frames("dev", "app", report(1030), 10_500);
    assert_eq!(third.fps, ratio(60, 1));
    assert_eq!(store.last_frames("dev", "app"), Some(FrameSample { total_frames: 1030, timestamp: 10_500 }));
}

#[test]
fn frame_rate_needs_a_tenth_of_a_second() {
    let before = Some(FrameSample { total_frames: 100, timestamp: 1_000 });
    assert_eq!(derive_frame_rate(before, 200, 1_099), (60, 1));
    assert_eq!(derive_frame_rate(before, 200, 1_100), (100_000, 100));
    assert_eq!(derive_frame_rate(before, 200, 1_101), (100_000, 101));
    assert_eq!(derive_frame_rate(before, 200, 1_000), (60, 1));
    assert_eq!(derive_frame_rate(before, 200, 900), (60, 1));
    assert_eq!(derive_frame_rate(None, 200, 900), (60, 1));
}

#[test]
fn frame_rate_at_exactly_a_tenth_of_a_second_is_measured() {
    let mut store = HistoryStore::new();
    store.observe_frames("dev", "pkg", report(1000), 50_000);
    let stats = store.observe_frames("dev", "pkg", report(1010), 50_100);
    assert_eq!(stats.fps, ratio(10_000, 100));
    assert_eq!(value(&stats.fps), 100.0);
    assert_eq!(stats.avg_frame_time, ratio(100_000, 10_000));
    assert_eq!(value(&stats.avg_frame_time), 10.0);
    let short = store.observe_frames("dev", "pkg", report(1020), 50_199);
    assert_eq!(short.fps, ratio(60, 1));
    assert_eq!(store.last_frames("dev", "pkg"), Some(FrameSample { total_frames: 1020, timestamp: 50_199 }));
}

#[test]
fn fallen_frame_count_gives_rate_zero() {
    let before = Some(FrameSample { total_frames: 500, timestamp: 1_000 });
    assert_eq!(derive_frame_rate(before, 20, 2_000), (0, 1_000));
    let stats = frame_stats(report(20), before, 2_000);
    assert_eq!(value(&stats.fps), 0.0);
    assert_eq!(stats.avg_frame_time, ratio(1_000_000, 0));
    assert!(value(&stats.avg_frame_time).is_infinite());
}

#[test]
fn frame_figures_are_filled_from_the_report() {
    let full = FrameReport {
        total_frames: 90,
        janky_frames: Some(4),
        percentile_90: Some(Quantity::Reading { numeral: "16".to_string(), divisor: 1 }),
        percentile_95: Some(Quantity::Reading { numeral: "22.5".to_string(), divisor: 1 }),
    };
    let stats = frame_stats(full, Some(FrameSample { total_frames: 30, timestamp: 0 }), 2_000);
    assert_eq!(
        stats,
        FrameStats {
            fps: ratio(60_000, 2_000),
            avg_frame_time: Quantity::Reading { numeral: "16".to_string(), divisor: 1 },
            frame_times: vec![
                Quantity::Reading { numeral: "16".to_string(), divisor: 1 },
                Quantity::Reading { numeral: "22.5".to_string(), divisor: 1 },
            ],
            jank_count: 4,
        }
    );
    assert_eq!(value(&stats.fps), 30.0);
    let bare = frame_stats(report(90), None, 2_000);
    assert_eq!(
        bare,
        FrameStats { fps: ratio(60, 1), avg_frame_time: ratio(1000, 60), frame_times: vec![ratio(1000, 60)], jank_count: 0 }
    );
}

#[test]
fn first_traffic_observation_has_no_rate_and_is_kept() {
    let mut store = HistoryStore::new();
    let stats = store.observe_traffic("dev", "4321", TrafficCounters { rx_bytes: 100, tx_bytes: 50 }, 7_000);
    assert_eq!(
        stats,
        TrafficStats { rx_bytes: 100, tx_bytes: 50, rx_delta: None, tx_delta: None, elapsed_ms: 1 }
    );
    assert_eq!(stats.rx_bps(), None);
    assert_eq!(stats.tx_bps(), None);
    assert_eq!(stats.total_bps(), None);
    assert_eq!(stats.total_kbps(), None);
    assert_eq!(
        store.last_traffic("dev", "4321"),
        Some(TrafficSample { rx_bytes: 100, tx_bytes: 50, timestamp: 7_000 })
    );
    assert_eq!(store.last_frames("dev", "4321"), None);
}

#[test]
fn traffic_rates_from_two_observations() {
    let mut store = HistoryStore::new();
    store.observe_traffic("dev", "4321", TrafficCounters { rx_bytes: 1_000, tx_bytes: 500 }, 7_000);
    let stats = store.observe_traffic("dev", "4321", TrafficCounters { rx_bytes: 3_048, tx_bytes: 1_524 }, 9_000);
    assert_eq!(stats.rx_bps(), Some(ratio(2_048_000, 2_000)));
    assert_eq!(stats.tx_bps(), Some(ratio(1_024_000, 2_000)));
    assert_eq!(stats.total_bps(), Some(ratio(3_072_000, 2_000)));
    assert_eq!(stats.total_kbps(), Some(ratio(3_072_000, 2_048_000)));
    assert_eq!(value(&stats.rx_bps().unwrap()), 1024.0);
    assert_eq!(value(&stats.total_bps().unwrap()), 1536.0);
    assert_eq!(value(&stats.total_kbps().unwrap()), 1.5);
    assert_eq!(
        store.last_traffic("dev", "4321"),
        Some(TrafficSample { rx_bytes: 3_048, tx_bytes: 1_524, timestamp: 9_000 })
    );
}

#[test]
fn fallen_traffic_counter_gives_rate_zero() {
    let before = Some(TrafficSample { rx_bytes: 900, tx_bytes: 100, timestamp: 1_000 });
    let stats = traffic_stats(before, TrafficCounters { rx_bytes: 10, tx_bytes: 300 }, 1_500);
    assert_eq!(stats.rx_delta, Some(0));
    assert_eq!(stats.tx_delta, Some(200));
    assert_eq!(value(&stats.rx_bps().unwrap()), 0.0);
    assert_eq!(value(&stats.tx_bps().unwrap()), 400.0);
}

#[test]
fn traffic_interval_is_at_least_a_millisecond() {
    let before = Some(TrafficSample { rx_bytes: 0, tx_bytes: 0, timestamp: 1_000 });
    let same = traffic_stats(before, TrafficCounters { rx_bytes: 5, tx_bytes: 0 }, 1_000);
    assert_eq!(same.elapsed_ms, 1);
    assert_eq!(value(&same.rx_bps().unwrap()), 5000.0);
    let earlier = traffic_stats(before, TrafficCounters { rx_bytes: 5, tx_bytes: 0 }, 10);
    assert_eq!(earlier.elapsed_ms, 1);
}

#[test]
fn combined_rate_takes_what_is_known() {
    let both = TrafficStats { rx_bytes: 0, tx_bytes: 0, rx_delta: Some(10), tx_delta: Some(20), elapsed_ms: 1_000 };
    assert_eq!(both.total_bps(), Some(ratio(30_000, 1_000)));
    let rx = TrafficStats { rx_delta: Some(10), tx_delta: None, ..both };
    assert_eq!(rx.total_bps(), Some(ratio(10_000, 1_000)));
    assert_eq!(rx.tx_bps(), None);
    let tx = TrafficStats { rx_delta: None, tx_delta: Some(20), ..both };
    assert_eq!(tx.total_bps(), Some(ratio(20_000, 1_000)));
    assert_eq!(tx.total_kbps(), Some(ratio(20_000, 1_024_000)));
    let neither = TrafficStats { rx_delta: None, tx_delta: None, ..both };
    assert_eq!(neither.total_bps(), None);
    let most = TrafficStats { rx_delta: Some(u64::MAX), tx_delta: Some(u64::MAX), elapsed_ms: u64::MAX, ..both };
    assert_eq!(most.total_kbps(), Some(ratio(2 * (u64::MAX as u128) * 1000, (u64::MAX as u128) * 1024)));
}

#[test]
fn history_keys_join_target_and_subject() {
    assert_eq!(HistoryStore::key("emulator-5554", "com.example.app"), "emulator-5554:com.example.app".to_string());
    assert_eq!(HistoryStore::key("a:b", "c"), HistoryStore::key("a", "b:c"));
    let mut store = HistoryStore::new();
    store.observe_frames("dev1", "app", report(10), 1);
    store.observe_frames("dev2", "app", report(20), 2);
    assert_eq!(store.last_frames("dev1", "app"), Some(FrameSample { total_frames: 10, timestamp: 1 }));
    assert_eq!(store.last_frames("dev2", "app"), Some(FrameSample { total_frames: 20, timestamp: 2 }));
}

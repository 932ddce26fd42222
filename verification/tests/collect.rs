use adb_metrics::collect::{Collection, Probe};
use adb_metrics::error::AdbError;
use adb_metrics::history::{FrameSample, FrameStats, HistoryStore, TrafficSample};
use adb_metrics::metrics::{MetricKey, MetricsSnapshot, Wanted};
use adb_metrics::quantity::Quantity;

fn value(q: &Quantity) -> f64 {
    match q {
        Quantity::Reading { numeral, divisor } => numeral.parse::<f64>().unwrap() / *divisor as f64,
        Quantity::Ratio { numerator, denominator } => *numerator as f64 / *denominator as f64,
    }
}

fn reading(numeral: &str, divisor: u64) -> Quantity {
    Quantity::Reading { numeral: numeral.to_string(), divisor }
}

fn ratio(numerator: u128, denominator: u128) -> Quantity {
    Quantity::Ratio { numerator, denominator }
}

const TOP: &str = "4321 u0_a1 10 -10 14G 180M 120M S 12.5 2.3 1:02.33 com.example.app\n";
const MEMINFO: &str = "        TOTAL   102400    5000\n";
const NET_DEV: &str = " wlan0: 1048576 100 0 0 0 0 0 0 2097152 200 0 0 0 0 0 0\n";
const BATTERY: &str = "  current now: 50000\n  level: 85\n  temperature: 250\n";
const WEAK_BATTERY: &str = "  current now: 50\n  level: 85\n  temperature: 250\n";

fn frames(total: u64) -> String {
    format!("Total frames rendered: {}\nJanky frames: 3 (1.00%)\n", total)
}

fn process_table(rx: u64, tx: u64) -> String {
    format!(" lo: 9 1 0 0 0 0 0 0 9 1 0 0 0 0 0 0\nwlan0: {} 1 0 0 0 0 0 0 {} 1 0 0 0 0 0 0\n", rx, tx)
}

/// Runs a collection to its end; `reply` stands for the device.
fn run(
    store: &mut HistoryStore,
    metrics: &[MetricKey],
    now: u64,
    reply: &dyn Fn(Probe) -> Result<String, AdbError>,
) -> (MetricsSnapshot, Vec<Probe>) {
    let mut collection = Collection::begin("dev", "com.example.app", metrics);
    let mut asked = Vec::new();
    while let Some(probe) = collection.pending() {
        assert!(collection.arguments().is_some());
        asked.push(probe);
        collection.supply(reply(probe), now, store);
        assert!(asked.len() <= 9);
    }
    assert_eq!(collection.arguments(), None);
    (collection.finish(), asked)
}

fn healthy(probe: Probe) -> Result<String, AdbError> {
    Ok(match probe {
        Probe::ProcessId => "4321\n".to_string(),
        Probe::Frames => frames(1000),
        Probe::Cpu => TOP.to_string(),
        Probe::PowerStats => "Estimated power use (mAh): 12.5\n".to_string(),
        Probe::BatteryCurrent => BATTERY.to_string(),
        Probe::Memory => MEMINFO.to_string(),
        Probe::Network => NET_DEV.to_string(),
        Probe::Battery => BATTERY.to_string(),
        Probe::Traffic => process_table(1000, 500),
    })
}

const ALL: [MetricKey; 8] = [
    MetricKey::Fps,
    MetricKey::Cpu,
    MetricKey::Power,
    MetricKey::Memory,
    MetricKey::Network,
    MetricKey::Battery,
    MetricKey::BatteryTemp,
    MetricKey::Traffic,
];

#[test]
fn nothing_requested_asks_nothing_and_finds_nothing() {
    let mut store = HistoryStore::new();
    let collection = Collection::begin("dev", "com.example.app", &[]);
    assert_eq!(collection.pending(), None);
    assert_eq!(collection.arguments(), None);
    assert_eq!(collection.finish(), MetricsSnapshot::default());
    let (snapshot, asked) = run(&mut store, &[], 1, &|_| panic!("no query is due"));
    assert_eq!(asked, Vec::<Probe>::new());
    assert_eq!(snapshot, MetricsSnapshot::default());
    assert_eq!(snapshot.fps, None);
    assert_eq!(snapshot.frame_stats, None);
    assert_eq!(snapshot.raw, None);
}

#[test]
fn supply_after_the_end_changes_nothing() {
    let mut store = HistoryStore::new();
    let mut collection = Collection::begin("dev", "com.example.app", &[]);
    collection.supply(Ok(frames(5)), 9, &mut store);
    assert_eq!(collection.pending(), None);
    assert_eq!(collection.finish(), MetricsSnapshot::default());
    assert_eq!(store.last_frames("dev", "com.example.app"), None);
}

#[test]
fn everything_requested_asks_each_query_once() {
    let mut store = HistoryStore::new();
    let (snapshot, asked) = run(&mut store, &ALL, 10_000, &healthy);
    assert_eq!(
        asked,
        vec![
            Probe::ProcessId,
            Probe::Frames,
            Probe::Cpu,
            Probe::PowerStats,
            Probe::Memory,
            Probe::Network,
            Probe::Battery,
            Probe::Traffic,
        ]
    );
    assert_eq!(
        snapshot,
        MetricsSnapshot {
            fps: Some(ratio(60, 1)),
            cpu: Some(reading("12.5", 1)),
            power: Some(reading("12.5", 1)),
            memory_mb: Some(reading("102400", 1024)),
            network_kbps: Some(ratio(3145728, 1024)),
            network_bps: None,
            rx_bytes: Some(1000),
            tx_bytes: Some(500),
            rx_bps: None,
            tx_bps: None,
            battery_level: Some(reading("85", 1)),
            battery_temp_c: Some(reading("250", 10)),
            frame_stats: Some(FrameStats {
                fps: ratio(60, 1),
                avg_frame_time: ratio(1000, 60),
                frame_times: vec![ratio(1000, 60)],
                jank_count: 3,
            }),
            raw: None,
        }
    );
    assert_eq!(value(snapshot.memory_mb.as_ref().unwrap()), 100.0);
    assert_eq!(value(snapshot.battery_temp_c.as_ref().unwrap()), 25.0);
}

#[test]
fn order_and_repetition_of_the_request_do_not_matter() {
    let mixed = [
        MetricKey::Traffic,
        MetricKey::Network,
        MetricKey::BatteryTemp,
        MetricKey::Fps,
        MetricKey::Traffic,
        MetricKey::Power,
        MetricKey::Cpu,
        MetricKey::Fps,
        MetricKey::Battery,
        MetricKey::Memory,
        MetricKey::Network,
    ];
    let mut one = HistoryStore::new();
    let mut other = HistoryStore::new();
    assert_eq!(run(&mut one, &ALL, 10_000, &healthy), run(&mut other, &mixed, 10_000, &healthy));
    assert_eq!(Wanted::of(&ALL), Wanted::of(&mixed));
    assert_eq!(Wanted::of(&[MetricKey::Cpu, MetricKey::Cpu]), Wanted::of(&[MetricKey::Cpu]));
    assert_ne!(Wanted::of(&[MetricKey::Cpu]), Wanted::of(&[MetricKey::Fps]));
}

#[test]
fn frame_rate_over_three_collections() {
    let mut store = HistoryStore::new();
    let fps = [MetricKey::Fps];
    let (first, asked) = run(&mut store, &fps, 10_000, &|_| Ok(frames(1000)));
    assert_eq!(asked, vec![Probe::Frames]);
    assert_eq!(first.fps, Some(ratio(60, 1)));
    assert_eq!(value(first.fps.as_ref().unwrap()), 60.0);
    assert_eq!(
        store.last_frames("dev", "com.example.app"),
        Some(FrameSample { total_frames: 1000, timestamp: 10_000 })
    );
    let (second, _) = run(&mut store, &fps, 10_500, &|_| Ok(frames(1030)));
    assert_eq!(second.fps, Some(ratio(30_000, 500)));
    assert_eq!(value(second.fps.as_ref().unwrap()), 60.0);
    assert_eq!(second.frame_stats.as_ref().unwrap().fps, ratio(30_000, 500));
    let (third, _) = run(&mut store, &fps, 10_500, &|_| Ok(frames(1030)));
    assert_eq!(third.fps, Some(ratio(60, 1)));
    assert_eq!(
        store.last_frames("dev", "com.example.app"),
        Some(FrameSample { total_frames: 1030, timestamp: 10_500 })
    );
}

#[test]
fn frame_rate_is_measured_from_a_tenth_of_a_second_on() {
    let mut store = HistoryStore::new();
    let fps = [MetricKey::Fps];
    run(&mut store, &fps, 7_000, &|_| Ok("Total frames rendered: 1000\n".to_string()));
    let (at, _) = run(&mut store, &fps, 7_100, &|_| Ok("Total frames rendered: 1010\n".to_string()));
    assert_eq!(at.fps, Some(ratio(10_000, 100)));
    assert_eq!(value(at.fps.as_ref().unwrap()), 100.0);
    let (under, _) = run(&mut store, &fps, 7_199, &|_| Ok("Total frames rendered: 1020\n".to_string()));
    assert_eq!(under.fps, Some(ratio(60, 1)));
}

#[test]
fn failed_frame_report_leaves_the_history() {
    let mut store = HistoryStore::new();
    let fps = [MetricKey::Fps];
    run(&mut store, &fps, 10_000, &|_| Ok(frames(1000)));
    let (snapshot, _) = run(&mut store, &fps, 20_000, &|_| Ok("No process found\n".to_string()));
    assert_eq!(snapshot, MetricsSnapshot::default());
    let (snapshot, _) = run(&mut store, &fps, 30_000, &|_| Err(AdbError::NotFound));
    assert_eq!(snapshot, MetricsSnapshot::default());
    assert_eq!(
        store.last_frames("dev", "com.example.app"),
        Some(FrameSample { total_frames: 1000, timestamp: 10_000 })
    );
}

#[test]
fn power_falls_back_to_the_battery_current() {
    let mut store = HistoryStore::new();
    let power = [MetricKey::Power];
    let weak_stats = |probe: Probe| match probe {
        Probe::PowerStats => Ok("no statistics\n".to_string()),
        other => healthy(other),
    };
    let (snapshot, asked) = run(&mut store, &power, 1, &weak_stats);
    assert_eq!(asked, vec![Probe::PowerStats, Probe::BatteryCurrent]);
    assert_eq!(snapshot.power, Some(reading("50000", 1000)));
    assert_eq!(value(snapshot.power.as_ref().unwrap()), 50.0);
    let failing_stats = |probe: Probe| match probe {
        Probe::PowerStats => Err(AdbError::CommandFailed("offline".to_string())),
        other => healthy(other),
    };
    let (snapshot, asked) = run(&mut store, &power, 1, &failing_stats);
    assert_eq!(asked, vec![Probe::PowerStats, Probe::BatteryCurrent]);
    assert_eq!(value(snapshot.power.as_ref().unwrap()), 50.0);
}

#[test]
fn weak_battery_current_leaves_power_absent() {
    let mut store = HistoryStore::new();
    let reply = |probe: Probe| match probe {
        Probe::PowerStats => Ok("no statistics\n".to_string()),
        _ => Ok(WEAK_BATTERY.to_string()),
    };
    let (snapshot, asked) = run(&mut store, &[MetricKey::Power, MetricKey::Battery], 1, &reply);
    assert_eq!(asked, vec![Probe::PowerStats, Probe::BatteryCurrent, Probe::Battery]);
    assert_eq!(snapshot.power, None);
    assert_eq!(snapshot.battery_level, Some(reading("85", 1)));
}

#[test]
fn battery_report_is_read_once_for_level_and_temperature() {
    let mut store = HistoryStore::new();
    for metrics in [
        vec![MetricKey::Battery],
        vec![MetricKey::BatteryTemp],
        vec![MetricKey::Battery, MetricKey::BatteryTemp],
    ] {
        let (snapshot, asked) = run(&mut store, &metrics, 1, &healthy);
        assert_eq!(asked, vec![Probe::Battery]);
        assert_eq!(snapshot.battery_level, Some(reading("85", 1)));
        assert_eq!(snapshot.battery_temp_c, Some(reading("250", 10)));
        assert_eq!(snapshot.power, None);
    }
}

#[test]
fn unknown_process_disables_what_depends_on_it() {
    let mut store = HistoryStore::new();
    for lookup in [Ok("\n".to_string()), Err(AdbError::CommandFailed("closed".to_string()))] {
        let reply = |probe: Probe| match probe {
            Probe::ProcessId => lookup.clone(),
            other => healthy(other),
        };
        let (snapshot, asked) = run(&mut store, &ALL, 1, &reply);
        assert_eq!(
            asked,
            vec![
                Probe::ProcessId,
                Probe::Frames,
                Probe::PowerStats,
                Probe::Memory,
                Probe::Network,
                Probe::Battery,
            ]
        );
        assert_eq!(snapshot.cpu, None);
        assert_eq!(snapshot.rx_bytes, None);
        assert_eq!(snapshot.network_bps, None);
        assert_eq!(snapshot.memory_mb, Some(reading("102400", 1024)));
        assert_eq!(snapshot.network_kbps, Some(ratio(3145728, 1024)));
    }
    assert_eq!(store.last_traffic("dev", "4321"), None);
}

#[test]
fn process_is_looked_up_only_where_needed() {
    let mut store = HistoryStore::new();
    let (_, asked) = run(&mut store, &[MetricKey::Memory, MetricKey::Fps], 1, &healthy);
    assert_eq!(asked, vec![Probe::Frames, Probe::Memory]);
    let (_, asked) = run(&mut store, &[MetricKey::Cpu], 1, &healthy);
    assert_eq!(asked, vec![Probe::ProcessId, Probe::Cpu]);
    let (_, asked) = run(&mut store, &[MetricKey::Traffic], 1, &healthy);
    assert_eq!(asked, vec![Probe::ProcessId, Probe::Traffic]);
}

#[test]
fn one_failure_does_not_stop_the_others() {
    let mut store = HistoryStore::new();
    let (snapshot, asked) = run(&mut store, &ALL, 1, &|probe| match probe {
        Probe::ProcessId => healthy(probe),
        Probe::Memory => healthy(probe),
        _ => Err(AdbError::NotFound),
    });
    assert_eq!(asked.len(), 9);
    assert_eq!(
        snapshot,
        MetricsSnapshot { memory_mb: Some(reading("102400", 1024)), ..MetricsSnapshot::default() }
    );
    let (snapshot, _) = run(&mut store, &ALL, 1, &|_| Err(AdbError::NotFound));
    assert_eq!(snapshot, MetricsSnapshot::default());
}

#[test]
fn traffic_rate_comes_before_the_running_total() {
    let mut store = HistoryStore::new();
    let metrics = [MetricKey::Network, MetricKey::Traffic];
    let (first, _) = run(&mut store, &metrics, 1_000, &healthy);
    assert_eq!(first.network_kbps, Some(ratio(3145728, 1024)));
    assert_eq!(first.network_bps, None);
    assert_eq!(first.rx_bytes, Some(1000));
    let later = |probe: Probe| match probe {
        Probe::Traffic => Ok(process_table(3048, 1524)),
        other => healthy(other),
    };
    let (second, _) = run(&mut store, &metrics, 3_000, &later);
    assert_eq!(second.rx_bytes, Some(3048));
    assert_eq!(second.tx_bytes, Some(1524));
    assert_eq!(second.rx_bps, Some(ratio(2_048_000, 2_000)));
    assert_eq!(second.tx_bps, Some(ratio(1_024_000, 2_000)));
    assert_eq!(second.network_bps, Some(ratio(3_072_000, 2_000)));
    assert_eq!(second.network_kbps, Some(ratio(3_072_000, 2_048_000)));
    assert_eq!(value(second.network_kbps.as_ref().unwrap()), 1.5);
    assert_eq!(
        store.last_traffic("dev", "4321"),
        Some(TrafficSample { rx_bytes: 3048, tx_bytes: 1524, timestamp: 3_000 })
    );
    let (alone, _) = run(&mut store, &[MetricKey::Traffic], 4_000, &later);
    assert_eq!(alone.network_kbps, Some(ratio(0, 1_024_000)));
}

#[test]
fn queries_carry_package_and_process() {
    let text = |v: Option<Vec<String>>| v.unwrap().join(" ");
    let mut store = HistoryStore::new();
    let mut collection = Collection::begin("dev", "com.example.app", &ALL);
    assert_eq!(collection.device(), "dev");
    let mut seen = Vec::new();
    while let Some(probe) = collection.pending() {
        seen.push(text(collection.arguments()));
        let reply = match probe {
            Probe::PowerStats => Ok(String::new()),
            other => healthy(other),
        };
        collection.supply(reply, 1, &mut store);
    }
    assert_eq!(
        seen,
        vec![
            "shell pidof com.example.app",
            "shell dumpsys gfxinfo com.example.app",
            "shell top -b -n 1 -q -p 4321",
            "shell dumpsys batterystats com.example.app",
            "shell dumpsys battery",
            "shell dumpsys meminfo com.example.app",
            "shell cat /proc/net/dev",
            "shell dumpsys battery",
            "shell cat /proc/4321/net/dev",
        ]
    );
}

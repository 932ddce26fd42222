use adb_metrics::battery::{parse_battery, BatteryStats};
use adb_metrics::error::{AdbError, Missing};
use adb_metrics::frames::{parse_frames, FrameReport};
use adb_metrics::memory::parse_memory;
use adb_metrics::network::parse_network;
use adb_metrics::power::{parse_current, parse_power};
use adb_metrics::process::resolve_pid;
use adb_metrics::quantity::Quantity;
use adb_metrics::traffic::{parse_traffic, TrafficCounters};

fn value(q: &Quantity) -> f64 {
    match q {
        Quantity::Reading { numeral, divisor } => numeral.parse::<f64>().unwrap() / *divisor as f64,
        Quantity::Ratio { numerator, denominator } => *numerator as f64 / *denominator as f64,
    }
}

fn reading(numeral: &str, divisor: u64) -> Quantity {
    Quantity::Reading { numeral: numeral.to_string(), divisor }
}

fn missing<T>(what: Missing) -> Result<T, AdbError> {
    Err(AdbError::ParseFailed(what))
}

#[test]
fn process_is_the_first_word() {
    assert_eq!(resolve_pid("4321\n"), Ok("4321".to_string()));
    assert_eq!(resolve_pid("  4321 4400\n"), Ok("4321".to_string()));
    assert_eq!(resolve_pid(""), missing(Missing::ProcessId));
    assert_eq!(resolve_pid(" \n\t"), missing(Missing::ProcessId));
}

#[test]
fn memory_total_in_megabytes() {
    let q = parse_memory("   Native Heap    1\n        TOTAL   102400    5000\n").unwrap();
    assert_eq!(q, reading("102400", 1024));
    assert_eq!(value(&q), 100.0);
}

#[test]
fn memory_takes_the_first_numeral_of_the_first_total_line() {
    let raw = "TOTAL PSS: none\nApp Summary TOTAL: 2048 TOTAL SWAP: 7\nTOTAL 4096\n";
    assert_eq!(value(&parse_memory(raw).unwrap()), 2.0);
    assert_eq!(parse_memory("Total 123\ntotal 5\n"), missing(Missing::MemoryTotal));
    assert_eq!(parse_memory(""), missing(Missing::MemoryTotal));
    assert_eq!(parse_memory("TOTAL\n"), missing(Missing::MemoryTotal));
}

const NET_DEV: &str = "Inter-|   Receive                                                |  Transmit\n face |bytes    packets errs drop fifo frame compressed multicast|bytes    packets errs drop fifo colls carrier compressed\n    lo:  999999    10    0    0    0     0          0         0   999999    10    0    0    0     0       0          0\n wlan0: 1048576   100    0    0    0     0          0         0  2097152   200    0    0    0     0       0          0\nrmnet0:     512     1    0    0    0     0          0         0      512     1    0    0    0     0       0          0\n";

#[test]
fn network_total_in_kilobytes() {
    let q = parse_network(NET_DEV).unwrap();
    assert_eq!(q, Quantity::Ratio { numerator: 3145728, denominator: 1024 });
    assert_eq!(value(&q), 3072.0);
}

#[test]
fn network_needs_a_full_row() {
    assert_eq!(parse_network("wlan0: 1 2 3\n"), missing(Missing::InterfaceCounters));
    assert_eq!(parse_network("eth0: 1 2 3 4 5 6 7 8 9 10 11 12 13 14 15 16\n"), missing(Missing::InterfaceCounters));
    assert_eq!(parse_network(""), missing(Missing::InterfaceCounters));
    let odd = "rmnet1: x 2 3 4 5 6 7 8 2048 10 11 12 13 14 15 16\n";
    assert_eq!(value(&parse_network(odd).unwrap()), 2.0);
}

#[test]
fn battery_temperature_in_degrees() {
    let b = parse_battery("Current Battery Service state:\n  level: 85\n  temperature: 250\n").unwrap();
    assert_eq!(b, BatteryStats { level: Some(reading("85", 1)), temp_c: Some(reading("250", 10)) });
    assert_eq!(value(b.temp_c.as_ref().unwrap()), 25.0);
    assert_eq!(value(b.level.as_ref().unwrap()), 85.0);
}

#[test]
fn battery_fields_are_taken_from_the_last_line() {
    let b = parse_battery("level: 10\ntemperature: 300\nlevel: 20\ntemperature: hot\n").unwrap();
    assert_eq!(b, BatteryStats { level: Some(reading("20", 1)), temp_c: Some(reading("300", 10)) });
    let b = parse_battery("level: 10\nlevel: full\ntemperature: 1\n").unwrap();
    assert_eq!(b, BatteryStats { level: None, temp_c: Some(reading("1", 10)) });
    let b = parse_battery("level:7").unwrap();
    assert_eq!(b, BatteryStats { level: Some(reading("7", 1)), temp_c: None });
}

#[test]
fn battery_without_fields_is_missing() {
    assert_eq!(parse_battery("status: 2\nhealth: 2\n"), missing(Missing::BatteryFields));
    assert_eq!(parse_battery("level: full\n"), missing(Missing::BatteryFields));
    assert_eq!(parse_battery(""), missing(Missing::BatteryFields));
}

#[test]
fn power_from_the_estimate() {
    let raw = "Statistics since last charge:\n  Estimated power use (mAh):\n    Capacity: 4000, Computed drain: 120\n";
    assert_eq!(parse_power(raw), missing(Missing::PowerFigure));
    let raw = "  Estimated power use (mAh): 12.5mAh total\n";
    assert_eq!(parse_power(raw), Ok(reading("12.5", 1)));
    let raw = "Estimated power use: 3.25 mAh\n";
    assert_eq!(value(&parse_power(raw).unwrap()), 3.25);
    let raw = "Estimated power use: about 7 mAh\n";
    assert_eq!(value(&parse_power(raw).unwrap()), 7.0);
}

#[test]
fn power_from_a_line_on_power_use() {
    assert_eq!(parse_power("  Uid u0a123: Power use 0.75 ( cpu=0.5 )\n"), Ok(reading("0.75", 1)));
    assert_eq!(parse_power("screen power use: 2\n"), Ok(reading("2", 1)));
    assert_eq!(parse_power("screen power use: n/a\n"), missing(Missing::PowerFigure));
    assert_eq!(parse_power("screen power use 2\n"), Ok(reading("2", 1)));
    assert_eq!(parse_power("POWER USE 2\n"), missing(Missing::PowerFigure));
    assert_eq!(parse_power(""), missing(Missing::PowerFigure));
}

#[test]
fn current_above_the_threshold_is_power() {
    let q = parse_current("  AC powered: false\n  current now: 50000\n").unwrap();
    assert_eq!(q, reading("50000", 1000));
    assert_eq!(value(&q), 50.0);
    assert_eq!(value(&parse_current("current now: -250000\n").unwrap()), -250.0);
    assert_eq!(value(&parse_current("current now: 101\n").unwrap()), 0.101);
}

#[test]
fn current_at_or_below_the_threshold_is_rejected() {
    assert_eq!(parse_current("current now: 50\n"), missing(Missing::PowerFigure));
    assert_eq!(parse_current("current now: 100\n"), missing(Missing::PowerFigure));
    assert_eq!(parse_current("current now: -100\n"), missing(Missing::PowerFigure));
    assert_eq!(parse_current("current now: 0\n"), missing(Missing::PowerFigure));
    assert_eq!(parse_current("current now: n/a\n"), missing(Missing::PowerFigure));
    assert_eq!(parse_current("Current now: 50000\n"), missing(Missing::PowerFigure));
    assert_eq!(parse_current(""), missing(Missing::PowerFigure));
}

#[test]
fn current_is_taken_from_the_first_line_that_passes() {
    let raw = "current now: 50\ncurrent now: 2000\ncurrent now: 9000\n";
    assert_eq!(value(&parse_current(raw).unwrap()), 2.0);
}

const GFXINFO: &str = "Applications Graphics Acceleration Info:\n** Graphics info for pid 4321 [com.example.app] **\n\nStats since: 1000ns\nTotal frames rendered: 1200\nJanky frames: 50 (4.17%)\n50th percentile: 8ms\n90th percentile: 16ms\n95th percentile: 22.5ms\n99th percentile: 40ms\n";

#[test]
fn frames_report_is_read_in_full() {
    assert_eq!(
        parse_frames(GFXINFO),
        Ok(FrameReport {
            total_frames: 1200,
            janky_frames: Some(50),
            percentile_90: Some(reading("16", 1)),
            percentile_95: Some(reading("22.5", 1)),
        })
    );
}

#[test]
fn frames_report_needs_only_the_count() {
    assert_eq!(
        parse_frames("  Total frames rendered: 7  \r\nJanky frames: few\n90th percentile: 16\n95th percentile: fast ms\n"),
        Ok(FrameReport { total_frames: 7, janky_frames: None, percentile_90: None, percentile_95: None })
    );
    assert_eq!(parse_frames("Janky frames: 5\n"), missing(Missing::FrameCount));
    assert_eq!(parse_frames("Total frames rendered: many\n"), missing(Missing::FrameCount));
    assert_eq!(parse_frames("Total frames rendered: -3\n"), missing(Missing::FrameCount));
    assert_eq!(parse_frames(""), missing(Missing::FrameCount));
}

#[test]
fn frames_report_keeps_the_last_of_each_field() {
    let raw = "Total frames rendered: 10\nJanky frames: 1 (10%)\nTotal frames rendered: 30\nTotal frames rendered: x\nJanky frames: 4\n90th percentile: 5ms\n90th percentile: 6ms\n";
    assert_eq!(
        parse_frames(raw),
        Ok(FrameReport { total_frames: 30, janky_frames: Some(4), percentile_90: Some(reading("6", 1)), percentile_95: None })
    );
}

fn row(name: &str, rx: u64, tx: u64) -> String {
    format!("{}: {} 1 0 0 0 0 0 0 {} 1 0 0 0 0 0 0\n", name, rx, tx)
}

#[test]
fn traffic_adds_up_the_counted_interfaces() {
    let raw = format!(
        "Inter-|   Receive |  Transmit\n face |bytes packets|bytes packets\n{}{}{}{}{}",
        row("    lo", 999, 999),
        row(" wlan0", 1000, 200),
        row("rmnet_data1", 30, 4),
        row("  eth0", 5, 0),
        row("dummy0", 77, 77),
    );
    assert_eq!(parse_traffic(&raw), Ok(TrafficCounters { rx_bytes: 1035, tx_bytes: 204 }));
}

#[test]
fn traffic_leaves_out_loopback_and_unknown_interfaces() {
    let with = format!("{}{}{}{}", row("wlan0", 10, 20), row("lo", 1, 1), row("tun0", 5, 5), row("lo0", 3, 3));
    let without = row("wlan0", 10, 20);
    assert_eq!(parse_traffic(&with), parse_traffic(&without));
    assert_eq!(parse_traffic(&with), Ok(TrafficCounters { rx_bytes: 10, tx_bytes: 20 }));
    let only = format!("{}{}{}", row("lo", 1, 1), row("tun0", 5, 5), row("p2p0", 9, 9));
    assert_eq!(parse_traffic(&only), missing(Missing::TrafficCounters));
}

#[test]
fn traffic_accepts_every_listed_prefix() {
    for name in ["wlan1", "rmnet0", "rmnet_data0", "ccmni2", "eth1", "usb0", "pdp_ip0", "cell0"] {
        assert_eq!(parse_traffic(&row(name, 7, 9)), Ok(TrafficCounters { rx_bytes: 7, tx_bytes: 9 }), "{}", name);
    }
}

#[test]
fn traffic_without_bytes_is_missing() {
    assert_eq!(parse_traffic(&row("wlan0", 0, 0)), missing(Missing::TrafficCounters));
    assert_eq!(parse_traffic("wlan0: 1 2 3\n"), missing(Missing::TrafficCounters));
    assert_eq!(parse_traffic("wlan0 5 1 0 0 0 0 0 0 5 1 0 0 0 0 0 0\n"), missing(Missing::TrafficCounters));
    assert_eq!(parse_traffic(""), missing(Missing::TrafficCounters));
    assert_eq!(parse_traffic(&row("wlan0", 0, 1)), Ok(TrafficCounters { rx_bytes: 0, tx_bytes: 1 }));
}

#[test]
fn traffic_sums_stop_at_the_greatest_number() {
    let raw = format!("{}{}", row("wlan0", u64::MAX - 1, 1), row("eth0", 5, 1));
    assert_eq!(parse_traffic(&raw), Ok(TrafficCounters { rx_bytes: u64::MAX, tx_bytes: 2 }));
}

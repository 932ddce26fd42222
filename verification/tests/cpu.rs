use adb_metrics::cpu::parse_cpu;
use adb_metrics::error::{AdbError, Missing};
use adb_metrics::quantity::Quantity;

fn value(q: &Quantity) -> f64 {
    match q {
        Quantity::Reading { numeral, divisor } => numeral.parse::<f64>().unwrap() / *divisor as f64,
        Quantity::Ratio { numerator, denominator } => *numerator as f64 / *denominator as f64,
    }
}

const LISTING: &str = "  PID USER         PR  NI VIRT  RES  SHR S[%CPU] %MEM     TIME+ ARGS\n 4321 u0_a123      10 -10  14G 180M 120M S 12.5   2.3   1:02.33 com.example.app\n";

#[test]
fn cpu_share_of_the_matching_row() {
    let q = parse_cpu(LISTING, "4321").unwrap();
    assert_eq!(q, Quantity::Reading { numeral: "12.5".to_string(), divisor: 1 });
    assert_eq!(value(&q), 12.5);
}

#[test]
fn cpu_share_above_one_hundred_is_clamped() {
    let raw = "4321 u0_a123 10 -10 14G 180M 120M S 312.0 2.3 1:02.33 app\n";
    let q = parse_cpu(raw, "4321").unwrap();
    assert_eq!(q, Quantity::Ratio { numerator: 100, denominator: 1 });
    assert_eq!(value(&q), 100.0);
}

#[test]
fn cpu_share_below_zero_is_clamped() {
    let raw = "4321 u0_a123 10 -10 14G 180M 120M S -3.5 2.3 1:02.33 app\n";
    assert_eq!(value(&parse_cpu(raw, "4321").unwrap()), 0.0);
}

#[test]
fn cpu_share_needs_the_process_row() {
    assert_eq!(parse_cpu(LISTING, "1"), Err(AdbError::ParseFailed(Missing::CpuShare)));
    assert_eq!(parse_cpu("", "4321"), Err(AdbError::ParseFailed(Missing::CpuShare)));
    assert_eq!(parse_cpu("4321 a b c d e f g", "4321"), Err(AdbError::ParseFailed(Missing::CpuShare)));
    assert_eq!(parse_cpu("4321 a b c d e f g R", "4321"), Err(AdbError::ParseFailed(Missing::CpuShare)));
}

#[test]
fn cpu_share_skips_rows_without_a_figure() {
    let raw = "4321 a b c d e f g x\n4321 a b c d e f g 7\n";
    assert_eq!(value(&parse_cpu(raw, "4321").unwrap()), 7.0);
}

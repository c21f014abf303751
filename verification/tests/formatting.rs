use skywidget::fixed::{from_units, percent_of, within_epsilon, CUSTOM_EPSILON, VALUE_UNIT};
use skywidget::numfmt::{fixed_one_decimal, fixed_whole_units, i64_dec, u64_dec, u64_hex};
use skywidget::snapshot::MetricsSnapshot;

#[test]
fn decimal_rendering() {
    assert_eq!(u64_dec(0), "0");
    assert_eq!(u64_dec(42), "42");
    assert_eq!(u64_dec(18_446_744_073_709_551_615), "18446744073709551615");
    assert_eq!(i64_dec(-1), "-1");
    assert_eq!(i64_dec(i64::MIN), "-9223372036854775808");
    assert_eq!(i64_dec(i64::MAX), "9223372036854775807");
}

#[test]
fn hexadecimal_rendering() {
    assert_eq!(u64_hex(0), "0");
    assert_eq!(u64_hex(0xab), "ab");
    assert_eq!(u64_hex(0xffff), "ffff");
}

#[test]
fn fixed_point_rendering() {
    assert_eq!(fixed_one_decimal(855_000), "85.5");
    assert_eq!(fixed_one_decimal(80 * VALUE_UNIT), "80.0");
    // One decimal place, truncated toward zero.
    assert_eq!(fixed_one_decimal(859_999), "85.9");
    assert_eq!(fixed_one_decimal(-5_000), "-0.5");
    assert_eq!(fixed_whole_units(25_000), "2");
    assert_eq!(fixed_whole_units(-25_000), "-2");
    assert_eq!(fixed_whole_units(-5_000), "0");
}

#[test]
fn epsilon_comparison() {
    assert_eq!(CUSTOM_EPSILON, 10);
    assert!(within_epsilon(500_004, 500_000));
    assert!(!within_epsilon(500_100, 500_000));
    assert!(within_epsilon(i64::MIN, i64::MIN + 9));
    assert!(!within_epsilon(i64::MIN, i64::MAX));
}

#[test]
fn percentages_are_exact_fixed_point() {
    assert_eq!(from_units(80), 80 * VALUE_UNIT);
    assert_eq!(percent_of(1, 2), 50 * VALUE_UNIT);
    assert_eq!(percent_of(1, 3), 333_333);
    assert_eq!(percent_of(0, 7), 0);
    assert_eq!(percent_of(7, 7), 100 * VALUE_UNIT);
}

#[test]
fn snapshot_insert_and_lookup() {
    let mut m = MetricsSnapshot::new();
    assert!(m.get("cpu_usage").is_none());
    m.insert("cpu_usage", 10);
    m.insert("memory_usage_percent", 20);
    assert_eq!(m.get("cpu_usage"), Some(10));
    assert_eq!(m.get("memory_usage_percent"), Some(20));
    // A second insert of the same name replaces the value.
    m.insert("cpu_usage", 30);
    assert_eq!(m.get("cpu_usage"), Some(30));
    assert!(m.get("disk_usage_percent").is_none());
}

use skywidget::numfmt::{format_bytes, format_bytes_gb, GB, KB, MB, TB};

#[test]
fn byte_counts_scale_into_units() {
    assert_eq!(format_bytes(500), "500 B");
    assert_eq!(format_bytes(KB), "1.00 KB");
    assert_eq!(format_bytes(1536), "1.50 KB");
    assert_eq!(format_bytes(3 * GB + GB / 2), "3.50 GB");
    assert_eq!(format_bytes(2 * TB), "2.00 TB");
    // Rounded half up at two decimals: 1.005 KB renders as 1.01 KB.
    assert_eq!(format_bytes(1029), "1.00 KB");
    assert_eq!(format_bytes(1034), "1.01 KB");
}

#[test]
fn byte_counts_capped_at_gibibytes() {
    assert_eq!(format_bytes_gb(2 * TB), "2048.00 GB");
    assert_eq!(format_bytes_gb(3 * MB), "3.00 MB");
    assert_eq!(format_bytes_gb(12), "12 B");
}

use skywidget::fixed::disk_usage_percent;

#[test]
fn disk_usage_aggregates_over_disks() {
    // Two disks: 100 bytes with 50 free, 100 bytes with 90 free: 30 percent.
    let disks = vec![(100u64, 50u64), (100u64, 90u64)];
    assert_eq!(disk_usage_percent(&disks), 30 * VALUE_UNIT);
    assert_eq!(disk_usage_percent(&Vec::new()), 0);
    // More available than total counts as nothing used.
    assert_eq!(disk_usage_percent(&vec![(10u64, 20u64)]), 0);
}

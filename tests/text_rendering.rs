use vinolite::text::{decimal_string, fixed2_string, format_bytes, format_percent};

#[test]
fn bytes_in_bytes() {
    assert_eq!(format_bytes(0), "0.00 B");
    assert_eq!(format_bytes(512), "512.00 B");
    assert_eq!(format_bytes(999), "999.00 B");
}

#[test]
fn bytes_switch_unit_at_one_thousand() {
    assert_eq!(format_bytes(1000), "0.98 KB");
    assert_eq!(format_bytes(1024), "1.00 KB");
    assert_eq!(format_bytes(4096), "4.00 KB");
    assert_eq!(format_bytes(1024 * 1000), "0.98 MB");
    assert_eq!(format_bytes(50 * 1024 * 1024), "50.00 MB");
    assert_eq!(format_bytes(1024 * 1024 * 1000), "0.98 GB");
}

#[test]
fn bytes_fall_through_to_terabytes() {
    let tb: u64 = 1024 * 1024 * 1024 * 1024;
    assert_eq!(format_bytes(1000 * 1024 * 1024 * 1024), "0.98 TB");
    assert_eq!(format_bytes(tb * 1000), "1000.00 TB");
    assert_eq!(format_bytes(tb * 1_000_000), "1000000.00 TB");
    assert_eq!(format_bytes(u64::MAX), "16777216.00 TB");
}

#[test]
fn bytes_round_ties_to_even() {
    // 1152 / 1024 = 1.125 exactly.
    assert_eq!(format_bytes(1152), "1.12 KB");
    // 1664 / 1024 = 1.625 exactly.
    assert_eq!(format_bytes(1664), "1.62 KB");
    // 1408 / 1024 = 1.375 exactly.
    assert_eq!(format_bytes(1408), "1.38 KB");
}

#[test]
fn percent_with_two_decimals() {
    assert_eq!(format_percent(1, 3), "33.33%");
    assert_eq!(format_percent(2, 3), "66.67%");
    assert_eq!(format_percent(5, 5), "100.00%");
    assert_eq!(format_percent(0, 7), "0.00%");
}

#[test]
fn percent_of_nothing_is_zero() {
    assert_eq!(format_percent(0, 0), "0.00%");
}

#[test]
fn decimal_and_fixed_notation() {
    assert_eq!(decimal_string(0), "0");
    assert_eq!(decimal_string(1_000_000), "1000000");
    assert_eq!(decimal_string(u64::MAX), "18446744073709551615");
    assert_eq!(fixed2_string(5), "0.05");
    assert_eq!(fixed2_string(12345), "123.45");
}

use bigquery_lite_engine::format::{format_bytes, format_duration};

#[test]
fn test_format_bytes() {
    assert_eq!(format_bytes(0), "0 B");
    assert_eq!(format_bytes(512), "512.00 B");
    assert_eq!(format_bytes(1024), "1.00 KB");
    assert_eq!(format_bytes(1048576), "1.00 MB");
    assert_eq!(format_bytes(1073741824), "1.00 GB");
}

#[test]
fn test_format_duration() {
    assert_eq!(format_duration(500), "500ms");
    assert_eq!(format_duration(1500), "1.50s");
    assert_eq!(format_duration(65000), "1m 5.00s");
}

#[test]
fn test_format_bytes_fractions() {
    assert_eq!(format_bytes(1023), "1023.00 B");
    assert_eq!(format_bytes(1536), "1.50 KB");
    // 1152 / 1024 = 1.125: the tie rounds to the even hundredth.
    assert_eq!(format_bytes(1152), "1.12 KB");
    // Just below a unit boundary the value rounds up past 1024.
    assert_eq!(format_bytes((1u64 << 40) - 1), "1024.00 GB");
    assert_eq!(format_bytes(1u64 << 40), "1.00 TB");
    assert_eq!(format_bytes(5 * 1024 * 1024 + 512 * 1024), "5.50 MB");
}

#[test]
fn test_format_duration_boundaries() {
    assert_eq!(format_duration(0), "0ms");
    assert_eq!(format_duration(999), "999ms");
    assert_eq!(format_duration(1000), "1.00s");
    assert_eq!(format_duration(59999), "60.00s");
    assert_eq!(format_duration(60000), "1m 0.00s");
    assert_eq!(format_duration(61230), "1m 1.23s");
}

#[test]
fn test_format_duration_ties_to_even() {
    // 1.015 s: the odd hundredth rounds up to the even one.
    assert_eq!(format_duration(1015), "1.02s");
    // 1.125 s: the even hundredth stays.
    assert_eq!(format_duration(1125), "1.12s");
}

use starrocks_admin_backend::metrics::{format_bytes, parse_bytes, parse_duration_ms};
use starrocks_admin_backend::num::Dec;

fn nanos(d: Dec) -> u128 {
    // milliseconds -> nanoseconds, exactly
    let ns = d.mant as u128 * 1_000_000;
    ns / 10u128.pow(d.exp)
}

#[test]
fn test_parse_duration_complex() {
    // Test format: 9m41s (from profile1)
    let d = parse_duration_ms("9m41s").unwrap();
    assert_eq!(nanos(d) / 1_000_000_000, 9 * 60 + 41);
}

#[test]
fn test_parse_duration_milliseconds() {
    let d = parse_duration_ms("11ms").unwrap();
    assert_eq!(nanos(d) / 1_000_000, 11);
}

#[test]
fn test_parse_duration_microseconds() {
    let d = parse_duration_ms("538.833us").unwrap();
    assert!(nanos(d) > 538000 && nanos(d) < 539000);
}

#[test]
fn test_parse_duration_nanoseconds() {
    let d = parse_duration_ms("456ns").unwrap();
    assert_eq!(nanos(d), 456);
}

#[test]
fn test_parse_duration_combined() {
    // Test format: 1s727ms (from profile2 QueryCumulativeCpuTime)
    let d = parse_duration_ms("1s727ms").unwrap();
    assert_eq!(nanos(d) / 1_000_000, 1727);
}

#[test]
fn duration_without_unit_is_none() {
    assert!(parse_duration_ms("").is_none());
    assert!(parse_duration_ms("123").is_none());
    assert_eq!(nanos(parse_duration_ms("2h").unwrap()), 2 * 3600 * 1_000_000_000);
}

#[test]
fn test_parse_bytes_gb() {
    // Test format: 558.156 GB (from profile1)
    let bytes = parse_bytes("558.156 GB").unwrap();
    println!("Parsed '558.156 GB' = {} bytes", bytes);
    // 558.156 GB = 558.156 * 1024^3 = 599,332,438,016 bytes (approximately)
    assert!(bytes > 599_000_000_000 && bytes < 600_000_000_000,
        "Expected ~599GB, got {} bytes", bytes);
}

#[test]
fn test_parse_bytes_mb() {
    let bytes = parse_bytes("13.812 MB").unwrap();
    println!("Parsed '13.812 MB' = {} bytes", bytes);
    // 13.812 MB = 13.812 * 1024^2 = 14,483,906 bytes (approximately)
    assert!(bytes > 14_000_000 && bytes < 15_000_000,
        "Expected ~14MB, got {} bytes", bytes);
}

#[test]
fn test_parse_bytes_kb() {
    let bytes = parse_bytes("442.328 KB").unwrap();
    println!("Parsed '442.328 KB' = {} bytes", bytes);
    // 442.328 KB = 442.328 * 1024 = 452,943 bytes (approximately)
    assert!(bytes > 450_000 && bytes < 460_000,
        "Expected ~452KB, got {} bytes", bytes);
}

#[test]
fn parse_bytes_exact_values_and_errors() {
    assert_eq!(parse_bytes("1.5 KB"), Some(1536));
    assert_eq!(parse_bytes("2 b"), Some(2));
    assert_eq!(parse_bytes("1 T"), Some(1u64 << 40));
    assert_eq!(parse_bytes("1.5"), None);
    assert_eq!(parse_bytes("1.5 XB"), None);
    assert_eq!(parse_bytes("abc KB"), None);
}

#[test]
fn format_bytes_picks_unit() {
    assert_eq!(format_bytes(512), "512.00 B");
    assert_eq!(format_bytes(1536), "1.50 KB");
    assert_eq!(format_bytes(1024 * 1024 * 1024), "1.00 GB");
}

#[test]
fn test_datacache_calculation_logic() {
    // Simulate the calculation with known values
    // DataCacheReadDiskBytes: 4.015 GB = 4.015 * 1024^3 = 4,311,744,921 bytes
    // FSIOBytesRead: 2.332 GB = 2.332 * 1024^3 = 2,504,047,820 bytes
    let cache_hit: f64 = 4.015 * 1024.0 * 1024.0 * 1024.0;
    let cache_miss: f64 = 2.332 * 1024.0 * 1024.0 * 1024.0;
    let total = cache_hit + cache_miss;
    let expected_hit_rate = cache_hit / total;

    println!("Expected hit rate: {:.4} ({:.2}%)", expected_hit_rate, expected_hit_rate * 100.0);

    // Verify the calculation
    assert!((expected_hit_rate - 0.6326).abs() < 0.01,
        "Expected ~63.26%, got {:.2}%", expected_hit_rate * 100.0);
}

#[test]
fn parse_bytes_reads_float_literals() {
    // The same literals `f64::from_str` accepts, times the unit, converted as `as u64`.
    assert_eq!(parse_bytes("1e3 KB"), Some((1e3f64 * 1024.0) as u64));
    assert_eq!(parse_bytes("2E2 b"), Some(200));
    assert_eq!(parse_bytes("1.5e-3 KB"), Some((1.5e-3f64 * 1024.0) as u64));
    assert_eq!(parse_bytes("+.5 K"), Some(512));
    assert_eq!(parse_bytes("5. B"), Some(5));
    assert_eq!(parse_bytes("INF GB"), Some(u64::MAX));
    assert_eq!(parse_bytes("-Infinity GB"), Some(0));
    assert_eq!(parse_bytes("NaN MB"), Some((f64::NAN * 1024.0) as u64));
    assert_eq!(parse_bytes("-2.5 KB"), Some(0));
    assert_eq!(parse_bytes("1e400 B"), Some(u64::MAX));
    assert_eq!(parse_bytes("1e-400 TB"), Some(0));
    assert_eq!(parse_bytes("0e99999999999999999999999999999999999 KB"), Some(0));
    assert_eq!(parse_bytes("1e99999999999999999999999999999999999 KB"), Some(u64::MAX));
    assert_eq!(parse_bytes("0.0000000001 TB"), Some((0.0000000001f64 * 1099511627776.0) as u64));
    assert_eq!(parse_bytes("20000000000000000000 B"), Some(u64::MAX));
    assert_eq!(parse_bytes("123456.7890123456789e-2 MB"), Some(1294538259));
    assert_eq!(parse_bytes("1e B"), None);
    assert_eq!(parse_bytes(". B"), None);
    assert_eq!(parse_bytes("1.2.3 B"), None);
    assert_eq!(parse_bytes("infinit B"), None);
}

use network_ids_core::types::IdsError;
use network_ids_core::utils::{
    clamp, current_timestamp_ms, format_bytes, format_duration, random_string, validate_port,
};

#[test]
fn test_format_bytes() {
    assert_eq!(format_bytes(0), "0 B");
    assert_eq!(format_bytes(512), "512 B");
    assert_eq!(format_bytes(1024), "1.00 KB");
    assert_eq!(format_bytes(1536), "1.50 KB");
    assert_eq!(format_bytes(1048576), "1.00 MB");
}

#[test]
fn test_format_duration() {
    assert_eq!(format_duration(30), "30s");
    assert_eq!(format_duration(90), "1m 30s");
    assert_eq!(format_duration(3661), "1h 1m");
    assert_eq!(format_duration(90061), "1d 1h");
}

#[test]
fn test_clamp() {
    assert_eq!(clamp(5, 1, 10), 5);
    assert_eq!(clamp(0, 1, 10), 1);
    assert_eq!(clamp(15, 1, 10), 10);
}

#[test]
fn format_bytes_boundaries() {
    assert_eq!(format_bytes(1023), "1023 B");
    assert_eq!(format_bytes(10240), "10.0 KB");
    assert_eq!(format_bytes(102400), "100 KB");
    assert_eq!(format_bytes(1073741824), "1.00 GB");
    assert_eq!(format_bytes(1099511627776), "1.00 TB");
}

#[test]
fn format_duration_exact_units() {
    assert_eq!(format_duration(0), "0s");
    assert_eq!(format_duration(60), "1m");
    assert_eq!(format_duration(3600), "1h");
    assert_eq!(format_duration(86400), "1d");
}

#[test]
fn validate_port_accepts_and_rejects() {
    assert_eq!(validate_port(80), Ok(80u16));
    assert_eq!(validate_port(65535), Ok(65535u16));
    assert_eq!(validate_port(65536), Err(IdsError::InvalidPort(65536)));
    let message = IdsError::InvalidPort(70000).message();
    assert_eq!(message, "Port number 70000 exceeds maximum (65535)");
}

#[test]
fn random_string_length_and_alphabet() {
    let s = random_string(32);
    assert_eq!(s.len(), 32);
    assert!(s.chars().all(|c| c.is_ascii_alphanumeric()));
    assert_eq!(random_string(0).len(), 0);
}

#[test]
fn timestamp_is_modern() {
    // Well after 2020-01-01 in milliseconds.
    assert!(current_timestamp_ms() > 1_577_836_800_000);
}

use bunkr_uploader::error::EngineError;
use bunkr_uploader::size::{format_size, parse_size};

#[test]
fn size_texts() {
    assert_eq!(parse_size("5GB"), Ok(5 * 1024 * 1024 * 1024));
    assert_eq!(parse_size("95MB"), Ok(95 * 1024 * 1024));
    assert_eq!(parse_size(" 10kb "), Ok(10 * 1024));
    assert_eq!(parse_size("512B"), Ok(512));
    assert_eq!(parse_size("+7b"), Ok(7));
    assert_eq!(parse_size("0B"), Ok(0));
}

#[test]
fn malformed_size_texts() {
    assert_eq!(parse_size("5TB"), Err(EngineError::ConfigParse));
    assert_eq!(parse_size("5"), Err(EngineError::ConfigParse));
    assert_eq!(parse_size("GB"), Err(EngineError::ConfigParse));
    assert_eq!(parse_size("-5MB"), Err(EngineError::ConfigParse));
    assert_eq!(parse_size("5 MB"), Err(EngineError::ConfigParse));
    assert_eq!(parse_size("5GBGB"), Err(EngineError::ConfigParse));
    assert_eq!(parse_size("99999999999GB"), Err(EngineError::ConfigParse));
    assert_eq!(parse_size("18446744073709551615B"), Ok(u64::MAX));
    assert_eq!(parse_size("18446744073709551616B"), Err(EngineError::ConfigParse));
}

#[test]
fn display_sizes() {
    assert_eq!(format_size(0), "0 B");
    assert_eq!(format_size(1023), "1023 B");
    assert_eq!(format_size(1024), "1.0 KB");
    assert_eq!(format_size(1536), "1.5 KB");
    assert_eq!(format_size(5 * 1024 * 1024), "5.0 MB");
    assert_eq!(format_size(3 * 1024 * 1024 * 1024 / 2), "1.5 GB");
    assert_eq!(format_size(1280), "1.2 KB");
    assert_eq!(format_size(1331), "1.3 KB");
    for s in [1024u64, 1280, 1300, 5000, 123456789, 98765432109] {
        let f = s as f64;
        let expected = if s >= 1 << 30 {
            format!("{:.1} GB", f / (1u64 << 30) as f64)
        } else if s >= 1 << 20 {
            format!("{:.1} MB", f / (1u64 << 20) as f64)
        } else {
            format!("{:.1} KB", f / 1024.0)
        };
        assert_eq!(format_size(s), expected);
    }
}

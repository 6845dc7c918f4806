use clustercut::text::{format_u64, parse_u64};

#[test]
fn format_small_numbers() {
    assert_eq!(format_u64(0), b"0".to_vec());
    assert_eq!(format_u64(7), b"7".to_vec());
    assert_eq!(format_u64(10), b"10".to_vec());
    assert_eq!(format_u64(1234567890), b"1234567890".to_vec());
}

#[test]
fn format_largest_number() {
    assert_eq!(format_u64(u64::MAX), b"18446744073709551615".to_vec());
}

#[test]
fn parse_accepts_what_std_accepts() {
    for text in ["0", "7", "+7", "007", "18446744073709551615", "+0018446744073709551615"] {
        assert_eq!(parse_u64(text.as_bytes()), text.parse::<u64>().ok(), "{}", text);
        assert!(parse_u64(text.as_bytes()).is_some());
    }
}

#[test]
fn parse_rejects_what_std_rejects() {
    for text in ["", "+", "-", "-1", "++1", " 1", "1 ", "1a", "18446744073709551616", "99999999999999999999999"] {
        assert_eq!(parse_u64(text.as_bytes()), None, "{}", text);
        assert!(text.parse::<u64>().is_err());
    }
}

#[test]
fn parse_reads_back_format() {
    for n in [0u64, 1, 9, 10, 99, 100, 1700000000, u64::MAX - 1, u64::MAX] {
        assert_eq!(parse_u64(&format_u64(n)), Some(n));
        assert_eq!(format_u64(n), n.to_string().into_bytes());
    }
}

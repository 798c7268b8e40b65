use hotfnl::text::{decimal_text, parse_u128, trim, version_from_text};

#[test]
fn decimal_of_numbers() {
    assert_eq!(decimal_text(0), "0");
    assert_eq!(decimal_text(7), "7");
    assert_eq!(decimal_text(1234567890123), "1234567890123");
    assert_eq!(decimal_text(u128::MAX), u128::MAX.to_string());
}

#[test]
fn parse_accepts_as_std_does() {
    assert_eq!(parse_u128("42"), Some(42));
    assert_eq!(parse_u128("+7"), Some(7));
    assert_eq!(parse_u128("007"), Some(7));
    assert_eq!(parse_u128("340282366920938463463374607431768211455"), Some(u128::MAX));
}

#[test]
fn parse_refuses_as_std_does() {
    for t in ["", "+", "-1", "12a", " 1", "1 ", "340282366920938463463374607431768211456", "++1"] {
        assert_eq!(parse_u128(t), t.parse::<u128>().ok(), "{:?}", t);
        assert_eq!(parse_u128(t), None);
    }
}

#[test]
fn decimal_reads_back() {
    for n in [0u128, 9, 10, 1700000000000, u128::MAX] {
        assert_eq!(parse_u128(&decimal_text(n)), Some(n));
    }
}

#[test]
fn trim_white_space() {
    assert_eq!(trim("  17\n"), "17");
    assert_eq!(trim("\t\u{3000}a b\u{a0}"), "a b");
    assert_eq!(trim("   "), "");
    assert_eq!(trim(""), "");
    for t in [" x ", "\n\n", "a\u{2028}", "\u{85}z"] {
        assert_eq!(trim(t), t.trim());
    }
}

#[test]
fn version_file_text() {
    assert_eq!(version_from_text(Some(" 1700000000123\n")), 1700000000123);
    assert_eq!(version_from_text(Some("x")), 0);
    assert_eq!(version_from_text(Some("")), 0);
    assert_eq!(version_from_text(None), 0);
}

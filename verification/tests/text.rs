use pairs::text::{decimal_string, parse_u16, trim};

#[test]
fn decimal_string_writes_numbers_without_leading_zeros() {
    assert_eq!(decimal_string(0), "0");
    assert_eq!(decimal_string(7), "7");
    assert_eq!(decimal_string(123), "123");
    assert_eq!(decimal_string(1000), "1000");
    assert_eq!(decimal_string(65535), "65535");
}

#[test]
fn parse_u16_accepts_what_std_accepts() {
    assert_eq!(parse_u16("123"), Some(123));
    assert_eq!(parse_u16("+7"), Some(7));
    assert_eq!(parse_u16("007"), Some(7));
    assert_eq!(parse_u16("0"), Some(0));
    assert_eq!(parse_u16("65535"), Some(65535));
}

#[test]
fn parse_u16_refuses_what_std_refuses() {
    for text in ["", "+", "-5", "-0", "65536", "99999", "1a", " 1", "1 ", "not-a-number", "++1"] {
        assert_eq!(parse_u16(text), None, "{text}");
        assert!(text.parse::<u16>().is_err(), "{text}");
    }
}

#[test]
fn parse_u16_agrees_with_std_on_samples() {
    for text in ["0", "00000000065535", "+65535", "65536", "12", "+0", "1+1", "٣"] {
        assert_eq!(parse_u16(text), text.parse::<u16>().ok(), "{text}");
    }
}

#[test]
fn decimal_text_reads_back_to_the_number() {
    for n in [0u16, 9, 10, 99, 100, 999, 1000, 4096, 65535] {
        assert_eq!(parse_u16(&decimal_string(n)), Some(n));
        assert_eq!(decimal_string(n), n.to_string());
    }
}

#[test]
fn trim_removes_unicode_white_space_at_both_ends() {
    assert_eq!(trim("  a b \n"), "a b");
    assert_eq!(trim("\u{3000}x\u{85}"), "x");
    assert_eq!(trim("\t\r\n"), "");
    assert_eq!(trim(""), "");
    assert_eq!(trim("inner  space"), "inner  space");
    for text in [" \u{2028}y\u{A0}", "\u{200B}z", "\u{1680} q \u{202F}"] {
        assert_eq!(trim(text), text.trim(), "{text:?}");
    }
}

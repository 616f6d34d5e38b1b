use consio::base::{is_binary, is_hex, is_oct, to_hex, Base};
use consio::integer::accumulate;

#[test]
fn octal_mark_is_told() {
    match Base::new("0o17") {
        Some(Base::Octal(digits)) => assert_eq!(digits, "17"),
        other => panic!("{:?}", other),
    }
}

#[test]
fn marks_are_told_in_order() {
    assert!(matches!(Base::new("0b101"), Some(Base::Binary(d)) if d == "101"));
    assert!(matches!(Base::new("101b"), Some(Base::Binary(d)) if d == "101"));
    assert!(matches!(Base::new("0x1f"), Some(Base::Hex(d)) if d == "1f"));
    assert!(matches!(Base::new("1fh"), Some(Base::Hex(d)) if d == "1f"));
    assert!(matches!(Base::new("0o7"), Some(Base::Octal(d)) if d == "7"));
    assert!(matches!(Base::new("0b"), Some(Base::Binary(d)) if d.is_empty()));
    assert!(matches!(Base::new("0bb"), None));
    assert!(matches!(Base::new("0b1h"), None));
    assert!(matches!(Base::new("0x1b"), None));
    assert!(matches!(Base::new("0xbh"), None));
    assert!(matches!(Base::new("0o1h"), None));
}

#[test]
fn digits_come_out_in_lower_case() {
    assert!(matches!(Base::new("0XABCDEF"), Some(Base::Hex(d)) if d == "abcdef"));
    assert!(matches!(Base::new("ABCH"), Some(Base::Hex(d)) if d == "abc"));
    assert!(matches!(Base::new("0B01"), Some(Base::Binary(d)) if d == "01"));
    assert!(matches!(Base::new("0O777"), Some(Base::Octal(d)) if d == "777"));
}

#[test]
fn text_without_a_mark_is_no_literal() {
    assert!(Base::new("").is_none());
    assert!(Base::new("0").is_none());
    assert!(Base::new("123").is_none());
    assert!(Base::new("12x").is_none());
    assert!(Base::new("x12").is_none());
    assert!(Base::new("17o").is_none());
    assert!(Base::new("0o8").is_none());
    assert!(Base::new("0xg").is_none());
    assert!(Base::new("2b").is_none());
    assert!(Base::new("0b2").is_none());
    assert!(Base::new("0x 1").is_none());
    assert!(Base::new("\u{e9}h").is_none());
}

#[test]
fn only_ascii_letters_are_lowered() {
    assert!(Base::new("0x\u{c0}").is_none());
    assert!(matches!(Base::new("Fh"), Some(Base::Hex(d)) if d == "f"));
}

#[test]
fn binary_alphabet() {
    assert!(is_binary(""));
    assert!(is_binary("0110"));
    assert!(!is_binary("012"));
    assert!(!is_binary("1 "));
    assert!(!is_binary("\u{661}"));
}

#[test]
fn octal_alphabet() {
    assert!(is_oct(""));
    assert!(is_oct("01234567"));
    assert!(!is_oct("8"));
    assert!(!is_oct("7/"));
    assert!(!is_oct("a"));
}

#[test]
fn hex_alphabet() {
    assert!(is_hex(""));
    assert!(is_hex("0123456789abcdef"));
    assert!(is_hex("89"));
    assert!(!is_hex("g"));
    assert!(!is_hex("A"));
    assert!(!is_hex("`"));
    assert!(!is_hex(":"));
}

#[test]
fn hex_digit_values() {
    assert_eq!(to_hex(b'0'), 0);
    assert_eq!(to_hex(b'9'), 9);
    assert_eq!(to_hex(b'a'), 10);
    assert_eq!(to_hex(b'f'), 15);
    assert_eq!(to_hex(b'A'), 10);
    assert_eq!(to_hex(b'F'), 15);
}

#[test]
fn accumulate_in_each_notation() {
    assert_eq!(accumulate::<u32>(&Base::Binary("1101".to_owned())), 13);
    assert_eq!(accumulate::<u32>(&Base::Octal("17".to_owned())), 15);
    assert_eq!(accumulate::<u32>(&Base::Hex("ff".to_owned())), 255);
    assert_eq!(accumulate::<i64>(&Base::Hex(String::new())), 0);
    assert_eq!(accumulate::<u8>(&Base::Octal("1000".to_owned())), 0);
    assert_eq!(accumulate::<i8>(&Base::Hex("fe".to_owned())), -2);
}

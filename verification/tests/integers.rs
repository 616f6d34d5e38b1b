use consio::integer::{parse_integer, settle, Integer};
use consio::{FromBuf, FromBufError};
use std::num::IntErrorKind;

fn line(text: &str) -> Vec<u8> {
    text.as_bytes().to_vec()
}

#[test]
fn decimal_literals_give_their_number() {
    assert_eq!(i32::from_buf(line("11\n")).unwrap(), 11);
    assert_eq!(u8::from_buf(line("255")).unwrap(), 255);
    assert_eq!(u8::from_buf(line("0")).unwrap(), 0);
    assert_eq!(i8::from_buf(line("-128")).unwrap(), -128);
    assert_eq!(i8::from_buf(line("127")).unwrap(), 127);
    assert_eq!(i64::from_buf(line("+42")).unwrap(), 42);
    assert_eq!(u32::from_buf(line("+42")).unwrap(), 42);
    assert_eq!(u16::from_buf(line("007")).unwrap(), 7);
    assert_eq!(i16::from_buf(line("-0")).unwrap(), 0);
}

#[test]
fn decimal_round_trip_through_the_formatter() {
    for value in [i32::MIN, -1000, -1, 0, 1, 9, 10, 4096, i32::MAX] {
        assert_eq!(i32::from_buf(line(&value.to_string())).unwrap(), value);
    }
    for value in [0u64, 1, 99, 100, u64::MAX] {
        assert_eq!(u64::from_buf(line(&value.to_string())).unwrap(), value);
    }
    for value in [i128::MIN, -7, 0, i128::MAX] {
        assert_eq!(i128::from_buf(line(&value.to_string())).unwrap(), value);
    }
    for value in [0u128, 12345678901234567890, u128::MAX] {
        assert_eq!(u128::from_buf(line(&value.to_string())).unwrap(), value);
    }
}

#[test]
fn every_width_reads_decimal() {
    assert_eq!(u8::from_buf(line("200")).unwrap(), 200);
    assert_eq!(u16::from_buf(line("60000")).unwrap(), 60000);
    assert_eq!(u32::from_buf(line("4000000000")).unwrap(), 4000000000);
    assert_eq!(u64::from_buf(line("18446744073709551615")).unwrap(), u64::MAX);
    assert_eq!(u128::from_buf(line("340282366920938463463374607431768211455")).unwrap(), u128::MAX);
    assert_eq!(usize::from_buf(line("65535")).unwrap(), 65535);
    assert_eq!(i8::from_buf(line("-100")).unwrap(), -100);
    assert_eq!(i16::from_buf(line("-30000")).unwrap(), -30000);
    assert_eq!(i32::from_buf(line("-2000000000")).unwrap(), -2000000000);
    assert_eq!(i64::from_buf(line("-9223372036854775808")).unwrap(), i64::MIN);
    assert_eq!(i128::from_buf(line("-170141183460469231731687303715884105728")).unwrap(), i128::MIN);
    assert_eq!(isize::from_buf(line("-32768")).unwrap(), -32768);
}

#[test]
fn every_width_refuses_what_is_no_literal() {
    assert!(matches!(u8::from_buf(line("12x")), Err(FromBufError::ConvertError(_))));
    assert!(matches!(u16::from_buf(line("12x")), Err(FromBufError::ConvertError(_))));
    assert!(matches!(u32::from_buf(line("12x")), Err(FromBufError::ConvertError(_))));
    assert!(matches!(u64::from_buf(line("12x")), Err(FromBufError::ConvertError(_))));
    assert!(matches!(u128::from_buf(line("12x")), Err(FromBufError::ConvertError(_))));
    assert!(matches!(usize::from_buf(line("12x")), Err(FromBufError::ConvertError(_))));
    assert!(matches!(i8::from_buf(line("12x")), Err(FromBufError::ConvertError(_))));
    assert!(matches!(i16::from_buf(line("12x")), Err(FromBufError::ConvertError(_))));
    assert!(matches!(i32::from_buf(line("12x")), Err(FromBufError::ConvertError(_))));
    assert!(matches!(i64::from_buf(line("12x")), Err(FromBufError::ConvertError(_))));
    assert!(matches!(i128::from_buf(line("12x")), Err(FromBufError::ConvertError(_))));
    assert!(matches!(isize::from_buf(line("12x")), Err(FromBufError::ConvertError(_))));
}

#[test]
fn invalid_literal_keeps_the_parsers_error() {
    match i32::from_buf(line("12x")) {
        Err(FromBufError::ConvertError(error)) => {
            assert_eq!(error.kind(), &IntErrorKind::InvalidDigit);
            assert_eq!(error, "12x".parse::<i32>().unwrap_err());
        }
        other => panic!("{:?}", other),
    }
}

#[test]
fn decimal_out_of_range_is_refused() {
    match u8::from_buf(line("300")) {
        Err(FromBufError::ConvertError(error)) => {
            assert_eq!(error.kind(), &IntErrorKind::PosOverflow)
        }
        other => panic!("{:?}", other),
    }
    match i8::from_buf(line("-129")) {
        Err(FromBufError::ConvertError(error)) => {
            assert_eq!(error.kind(), &IntErrorKind::NegOverflow)
        }
        other => panic!("{:?}", other),
    }
    match u32::from_buf(line("-1")) {
        Err(FromBufError::ConvertError(error)) => {
            assert_eq!(error.kind(), &IntErrorKind::InvalidDigit)
        }
        other => panic!("{:?}", other),
    }
}

#[test]
fn empty_line_is_refused_by_the_parser() {
    match i32::from_buf(line("  \n")) {
        Err(FromBufError::ConvertError(error)) => assert_eq!(error.kind(), &IntErrorKind::Empty),
        other => panic!("{:?}", other),
    }
    assert!(matches!(u8::from_buf(Vec::new()), Err(FromBufError::ConvertError(_))));
}

#[test]
fn lone_signs_are_refused() {
    assert!(matches!(i32::from_buf(line("+")), Err(FromBufError::ConvertError(_))));
    assert!(matches!(i32::from_buf(line("-")), Err(FromBufError::ConvertError(_))));
    assert!(matches!(i32::from_buf(line("+-5")), Err(FromBufError::ConvertError(_))));
    assert!(matches!(i32::from_buf(line("1_000")), Err(FromBufError::ConvertError(_))));
}

#[test]
fn binary_literals() {
    assert_eq!(i32::from_buf(line("0b101")).unwrap(), 5);
    assert_eq!(i32::from_buf(line("101b")).unwrap(), 5);
    assert_eq!(i32::from_buf(line("0B11")).unwrap(), 3);
    assert_eq!(i32::from_buf(line("11B")).unwrap(), 3);
    assert_eq!(u64::from_buf(line("0b0")).unwrap(), 0);
    assert_eq!(u64::from_buf(line("0000b")).unwrap(), 0);
    assert_eq!(u8::from_buf(line("11111111b")).unwrap(), 255);
}

#[test]
fn binary_wraps_at_the_width() {
    assert_eq!(u8::from_buf(line("100000000b")).unwrap(), 0);
    assert_eq!(u8::from_buf(line("100000001b")).unwrap(), 1);
    assert_eq!(u8::from_buf(line("0b1111111111")).unwrap(), 255);
    assert_eq!(i8::from_buf(line("10000000b")).unwrap(), -128);
    assert_eq!(i8::from_buf(line("0b11111111")).unwrap(), -1);
    assert_eq!(i8::from_buf(line("0b101111111")).unwrap(), 127);
    assert_eq!(u16::from_buf(line("0b10000000000000001")).unwrap(), 1);
    assert_eq!(i16::from_buf(line("0b1000000000000000")).unwrap(), i16::MIN);
}

#[test]
fn hex_literals() {
    assert_eq!(i32::from_buf(line("0x11")).unwrap(), 17);
    assert_eq!(i32::from_buf(line("11h")).unwrap(), 17);
    assert_eq!(i32::from_buf(line("11H")).unwrap(), 17);
    assert_eq!(i32::from_buf(line("0X11")).unwrap(), 17);
    assert_eq!(u32::from_buf(line("0xfF")).unwrap(), 255);
    assert_eq!(u32::from_buf(line("FFh")).unwrap(), 255);
    assert_eq!(u32::from_buf(line("0x89")).unwrap(), 137);
    assert_eq!(u32::from_buf(line("98h")).unwrap(), 152);
    assert_eq!(u64::from_buf(line("0xdeadc0de")).unwrap(), 0xdeadc0de);
    assert_eq!(u64::from_buf(line("bh")).unwrap(), 11);
    assert_eq!(u128::from_buf(line("0xffffffffffffffffffffffffffffffff")).unwrap(), u128::MAX);
}

#[test]
fn hex_wraps_at_the_width() {
    assert_eq!(u8::from_buf(line("0x100")).unwrap(), 0);
    assert_eq!(u8::from_buf(line("0x1ff")).unwrap(), 255);
    assert_eq!(i8::from_buf(line("0xff")).unwrap(), -1);
    assert_eq!(i8::from_buf(line("80h")).unwrap(), -128);
    assert_eq!(i32::from_buf(line("0xffffffff")).unwrap(), -1);
    assert_eq!(i32::from_buf(line("0x80000000")).unwrap(), i32::MIN);
    assert_eq!(u32::from_buf(line("0x100000001")).unwrap(), 1);
    assert_eq!(i64::from_buf(line("0xffffffffffffffff")).unwrap(), -1);
    assert_eq!(i128::from_buf(line("0x80000000000000000000000000000000")).unwrap(), i128::MIN);
    assert_eq!(usize::from_buf(line("0xff")).unwrap(), 255);
    assert_eq!(isize::from_buf(line("0xff")).unwrap(), 255);
}

#[test]
fn hex_that_looks_binary_is_refused() {
    assert!(matches!(i32::from_buf(line("0x1b")), Err(FromBufError::ConvertError(_))));
    assert!(matches!(i32::from_buf(line("0xB")), Err(FromBufError::ConvertError(_))));
    assert!(matches!(i32::from_buf(line("0b1h")), Err(FromBufError::ConvertError(_))));
    assert_eq!(i32::from_buf(line("0b1")).unwrap(), 1);
    assert_eq!(i32::from_buf(line("1bh")).unwrap(), 27);
}

#[test]
fn octal_literals() {
    assert_eq!(u32::from_buf(line("0o17")).unwrap(), 15);
    assert_eq!(u32::from_buf(line("0O17")).unwrap(), 15);
    assert_eq!(u8::from_buf(line("0o400")).unwrap(), 0);
    assert_eq!(i8::from_buf(line("0o377")).unwrap(), -1);
    assert!(matches!(u32::from_buf(line("0o18")), Err(FromBufError::ConvertError(_))));
    assert!(matches!(u32::from_buf(line("17o")), Err(FromBufError::ConvertError(_))));
}

#[test]
fn marks_without_digits_give_zero() {
    assert_eq!(i32::from_buf(line("0b")).unwrap(), 0);
    assert_eq!(i32::from_buf(line("b")).unwrap(), 0);
    assert_eq!(i32::from_buf(line("0x")).unwrap(), 0);
    assert_eq!(i32::from_buf(line("h")).unwrap(), 0);
    assert_eq!(i32::from_buf(line("0o")).unwrap(), 0);
    assert_eq!(u8::from_buf(line("B")).unwrap(), 0);
}

#[test]
fn signed_marks_are_refused() {
    assert!(matches!(i32::from_buf(line("-0x11")), Err(FromBufError::ConvertError(_))));
    assert!(matches!(i32::from_buf(line("+0b1")), Err(FromBufError::ConvertError(_))));
    assert!(matches!(i32::from_buf(line("-11h")), Err(FromBufError::ConvertError(_))));
}

#[test]
fn integer_from_bytes_that_are_no_text() {
    assert!(matches!(i32::from_buf(vec![0xFF, 0xFE]), Err(FromBufError::InvalidUtf8String)));
    assert!(matches!(u128::from_buf(vec![b'1', 0x80]), Err(FromBufError::InvalidUtf8String)));
}

#[test]
fn integer_is_trimmed_first() {
    assert_eq!(i32::from_buf(line("  42 \r\n")).unwrap(), 42);
    assert_eq!(i32::from_buf(line("\t0x10\n")).unwrap(), 16);
    assert!(matches!(i32::from_buf(line("4 2")), Err(FromBufError::ConvertError(_))));
}

#[test]
fn parse_integer_takes_trimmed_text() {
    assert_eq!(parse_integer::<u32>("0o17").unwrap(), 15);
    assert_eq!(parse_integer::<i32>("-17").unwrap(), -17);
    assert_eq!(parse_integer::<u8>("100000000b").unwrap(), 0);
    assert!(matches!(parse_integer::<i32>(" 17"), Err(FromBufError::ConvertError(_))));
    assert!(matches!(parse_integer::<i32>("12x"), Err(FromBufError::ConvertError(_))));
}

#[test]
fn same_bytes_same_result() {
    let buf = line(" 0x1F \n");
    assert_eq!(i32::from_buf(buf.clone()).unwrap(), i32::from_buf(buf.clone()).unwrap());
    assert_eq!(i32::from_buf(buf).unwrap(), 31);
    let bad = line("12x");
    let first = u8::from_buf(bad.clone());
    let second = u8::from_buf(bad);
    match (first, second) {
        (Err(FromBufError::ConvertError(a)), Err(FromBufError::ConvertError(b))) => {
            assert_eq!(a, b)
        }
        other => panic!("{:?}", other),
    }
}

#[test]
fn settle_follows_the_decimal_parser() {
    assert_eq!(settle::<i32>("0x10", Ok(7)).unwrap(), 7);
    let refusal = "0x10".parse::<i32>().unwrap_err();
    assert_eq!(settle::<i32>("0x10", Err(refusal.clone())).unwrap(), 16);
    assert_eq!(settle::<u8>("100000000b", Err(refusal.clone())).unwrap(), 0);
    match settle::<i32>("12x", Err(refusal.clone())) {
        Err(FromBufError::ConvertError(error)) => assert_eq!(error, refusal),
        other => panic!("{:?}", other),
    }
}

#[test]
fn integer_steps_wrap() {
    assert_eq!(<u8 as Integer>::zero(), 0);
    assert_eq!(200u8.shift_in(2, 1), 145);
    assert_eq!(255u8.shift_in(16, 15), 255);
    assert_eq!(100i8.shift_in(2, 0), -56);
    assert_eq!((-1i8).shift_in(16, 15), -1);
    assert_eq!(i32::MAX.shift_in(2, 1), -1);
    assert_eq!(u64::MAX.shift_in(8, 7), u64::MAX);
    assert_eq!(3u128.shift_in(16, 10), 58);
    assert_eq!(<i64 as Integer>::from_decimal("-12").unwrap(), -12);
    assert!(<u64 as Integer>::from_decimal("-12").is_err());
}

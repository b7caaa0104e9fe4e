use smg::bytes::{pack16, pack32, pack64, push_le};
use smg::text::{
    decimal, find, parse_signed, parse_unsigned, starts_with, to_ascii_lowercase, to_chars, trim,
    trim_start_matches,
};

#[test]
fn texts_are_trimmed_and_lowered() {
    assert_eq!(trim(" \u{a0}a b\t"), "a b");
    assert_eq!(trim(""), "");
    assert_eq!(to_ascii_lowercase("ÄBc"), "Äbc");
    assert_eq!(trim_start_matches("aaab", "a"), "b");
    assert!(starts_with("abc", "ab"));
    assert_eq!(find(&to_chars("äbcbc"), &to_chars("bc")), Some(1));
}

#[test]
fn numbers_are_written_and_read() {
    assert_eq!(decimal(0), "0");
    assert_eq!(decimal(u128::MAX), u128::MAX.to_string());
    assert_eq!(parse_unsigned("+42", 100), Some(42));
    assert_eq!(parse_unsigned("101", 100), None);
    assert_eq!(parse_unsigned("", 100), None);
    assert_eq!(parse_unsigned("-1", 100), None);
    assert_eq!(parse_unsigned("18446744073709551615", u64::MAX), Some(u64::MAX));
    assert_eq!(parse_signed("-17"), Some(-17));
    assert_eq!(parse_signed("+17"), Some(17));
    assert_eq!(parse_signed("-0"), Some(0));
    assert_eq!(parse_signed("-"), None);
    assert_eq!(parse_signed("-+1"), None);
    assert_eq!(parse_signed("-9223372036854775808"), Some(i64::MIN));
    assert_eq!(parse_signed("-9223372036854775809"), None);
    assert_eq!(parse_signed("9223372036854775807"), Some(i64::MAX));
    assert_eq!(parse_signed("9223372036854775808"), None);
}

#[test]
fn numbers_are_packed_in_little_endian() {
    let mut out: Vec<u8> = Vec::new();
    push_le(&mut out, 0x0102_0304, 4);
    assert_eq!(out, vec![4, 3, 2, 1]);
    let mut out: Vec<u8> = Vec::new();
    pack16(&mut out, &vec![0x0102]);
    pack32(&mut out, &vec![1]);
    pack64(&mut out, &vec![-2]);
    assert_eq!(
        out,
        vec![2, 1, 1, 0, 0, 0, 0xfe, 0xff, 0xff, 0xff, 0xff, 0xff, 0xff, 0xff]
    );
}

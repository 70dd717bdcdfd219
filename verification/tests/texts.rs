use mtp_rs::text::{
    chars_of, contains, ends_with, join, pad_left, parse_unsigned, same, write_decimal,
    write_hex_padded, write_numeral,
};
use mtp_rs::wire::{pack_u16, pack_u32, unpack_u16, unpack_u32};

#[test]
fn numbers_are_written_and_read_back() {
    for n in [0u64, 7, 10, 255, 4_294_967_296, u64::MAX] {
        assert_eq!(write_decimal(n), n.to_string());
        assert_eq!(parse_unsigned(&chars_of(&write_decimal(n)), 10, u64::MAX), Some(n));
        let hex = write_numeral(n as u128, 16);
        assert_eq!(hex, format!("{n:x}"));
        assert_eq!(parse_unsigned(&chars_of(&hex), 16, u64::MAX), Some(n));
    }
    assert_eq!(write_hex_padded(0xAB, 8), "000000ab");
    assert_eq!(write_hex_padded(0x1_2345_6789, 8), "123456789");
    assert_eq!(pad_left("ab", "-", 4), "--ab");
}

#[test]
fn unsigned_numbers_are_read_within_their_bound() {
    let read = |s: &str, radix, max| parse_unsigned(&chars_of(s), radix, max);
    assert_eq!(read("+5", 10, 9), Some(5));
    assert_eq!(read("10", 10, 9), None);
    assert_eq!(read("", 10, 9), None);
    assert_eq!(read("+", 10, 9), None);
    assert_eq!(read("-1", 10, 9), None);
    assert_eq!(read("FF", 16, 255), Some(255));
    assert_eq!(read("1g", 16, 255), None);
}

#[test]
fn texts_are_searched_and_joined() {
    assert!(contains("exclusive access", "access"));
    assert!(contains("abc", ""));
    assert!(!contains("abc", "abcd"));
    assert!(ends_with("/tmp/foo.txt", "/foo.txt"));
    assert!(!ends_with("foo.txt", "/foo.txt"));
    assert!(same("a", "a") && !same("a", "A"));
    assert_eq!(join(&vec!["a".to_string(), "b".to_string(), "c".to_string()], ", "), "a, b, c");
    assert_eq!(join(&Vec::new(), ", "), "");
}

#[test]
fn wire_numbers_are_little_endian() {
    let mut out = Vec::new();
    pack_u16(&mut out, 0x1234);
    pack_u32(&mut out, 0x89AB_CDEF);
    assert_eq!(out, vec![0x34, 0x12, 0xEF, 0xCD, 0xAB, 0x89]);
    assert_eq!(unpack_u16(&out, 0), 0x1234);
    assert_eq!(unpack_u32(&out, 2), 0x89AB_CDEF);
}

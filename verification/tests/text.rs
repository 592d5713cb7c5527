use ds4::bytes::{
    find, matches_at, push_bytes, push_decimal, push_le32, push_le64, push_signed, push_text,
    read_le16, read_le32, read_le64,
};
use ds4::num::{parse_i32, parse_u64};
use ds4::text::{
    bytes_eq, chars_of, find_text, has_at, is_ascii_white, is_white, push_hex_byte, push_i64,
    push_u64, starts_with, str_eq, string_of, substring, trim_range,
};

fn chars(s: &str) -> Vec<char> {
    s.chars().collect()
}

#[test]
fn white_space_is_that_of_unicode() {
    for n in 0..=0x10_ffffu32 {
        if let Some(c) = char::from_u32(n) {
            assert_eq!(is_white(c), c.is_whitespace(), "{n:x}");
            assert_eq!(is_ascii_white(c), c.is_ascii_whitespace(), "{n:x}");
        }
    }
}

#[test]
fn numbers_as_text() {
    for n in [0, 1, 9, 10, 99, 100, 4096, u64::MAX] {
        let mut s = String::from("n=");
        push_u64(&mut s, n);
        assert_eq!(s, format!("n={n}"));
        assert_eq!(parse_u64(&chars(&s[2..])), Some(n));
    }
    for n in [i64::MIN, -10, -1, 0, 7, i64::MAX] {
        let mut s = String::new();
        push_i64(&mut s, n);
        assert_eq!(s, n.to_string());
    }
    for b in [0u8, 9, 10, 0x7f, 0xab, 0xff] {
        let mut s = String::new();
        push_hex_byte(&mut s, b);
        assert_eq!(s, format!("{b:02x}"));
    }
}

#[test]
fn numbers_from_text() {
    for s in ["", "+", "-", "-0", "+5", "007", "18446744073709551615", "18446744073709551616", "1a", " 1"] {
        assert_eq!(parse_u64(&chars(s)), s.parse::<u64>().ok(), "{s:?}");
    }
    for s in ["", "+", "-", "-0", "+5", "-007", "2147483647", "2147483648", "-2147483648", "-2147483649", "1-"] {
        assert_eq!(parse_i32(&chars(s)), s.parse::<i32>().ok(), "{s:?}");
    }
}

#[test]
fn pieces_of_text() {
    let s = "  héllo wörld\u{3000}";
    assert_eq!(chars_of(s), chars(s));
    assert_eq!(string_of(&chars(s)), s);
    let v = chars(s);
    let (from, to) = trim_range(&v, 0, v.len());
    assert_eq!(substring(&v, from, to), s.trim());
    assert!(has_at(&v, &chars("llo"), 4) && !has_at(&v, &chars("llo"), 5));
    assert!(!has_at(&v, &chars("ld and more"), v.len() - 3));
    assert_eq!(find_text(&v, &chars("w"), 0), Some(8));
    assert_eq!(find_text(&v, &chars("h"), 3), None);
    assert_eq!(find_text(&v, &[], 5), Some(5));
    assert!(starts_with("--ctx", "--") && !starts_with("-", "--") && starts_with("a", ""));
    assert!(str_eq("é", "é") && !str_eq("e", "é"));
    assert!(bytes_eq(b"ab", b"ab") && !bytes_eq(b"ab", b"abc") && !bytes_eq(b"ab", b"ac"));
}

#[test]
fn integers_in_bytes() {
    let mut out = vec![9u8];
    push_le32(&mut out, 0x0403_0201);
    push_le64(&mut out, 0x0807_0605_0403_0201);
    assert_eq!(out, [9, 1, 2, 3, 4, 1, 2, 3, 4, 5, 6, 7, 8]);
    assert_eq!(read_le16(&out, 1), 0x0201);
    assert_eq!(read_le32(&out, 1), 0x0403_0201);
    assert_eq!(read_le64(&out, 5), 0x0807_0605_0403_0201);
}

#[test]
fn bytes_are_searched_from_the_left() {
    assert!(matches_at(b"abcab", b"ab", 3) && !matches_at(b"abcab", b"ab", 4));
    assert_eq!(find(b"abcab", b"ab", 0), Some(0));
    assert_eq!(find(b"abcab", b"ab", 1), Some(3));
    assert_eq!(find(b"abcab", b"x", 0), None);
    let mut out = Vec::new();
    push_text(&mut out, "é=");
    push_decimal(&mut out, 42);
    push_bytes(&mut out, b" ");
    push_signed(&mut out, -7);
    assert_eq!(out, "é=42 -7".as_bytes());
}

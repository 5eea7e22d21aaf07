use dc34_console::text::{chars_of, next_token, parse_unsigned_in, push_decimal, push_padded_decimal, string_of};

fn dec(n: u64) -> String {
    let mut s = String::new();
    push_decimal(&mut s, n);
    s
}

#[test]
fn decimal_formatting() {
    assert_eq!(dec(0), "0");
    assert_eq!(dec(7), "7");
    assert_eq!(dec(1234567890), "1234567890");
    assert_eq!(dec(u64::MAX), "18446744073709551615");
}

#[test]
fn padded_decimal_formatting() {
    let mut s = String::new();
    push_padded_decimal(&mut s, 6, 4, '0');
    assert_eq!(s, "0006");
    let mut s = String::new();
    push_padded_decimal(&mut s, 123456, 4, '0');
    assert_eq!(s, "123456");
    let mut s = String::from("x");
    push_padded_decimal(&mut s, 3, 2, ' ');
    assert_eq!(s, "x 3");
}

fn parse(s: &str, max: u64) -> Option<u64> {
    let c = chars_of(s);
    parse_unsigned_in(&c, 0, c.len(), max)
}

#[test]
fn parsing_follows_str_parse() {
    assert_eq!(parse("42", u32::MAX as u64), Some(42));
    assert_eq!(parse("+42", u32::MAX as u64), Some(42));
    assert_eq!(parse("0042", u32::MAX as u64), Some(42));
    assert_eq!(parse("", u32::MAX as u64), None);
    assert_eq!(parse("+", u32::MAX as u64), None);
    assert_eq!(parse("-1", u32::MAX as u64), None);
    assert_eq!(parse("4x", u32::MAX as u64), None);
    assert_eq!(parse("4294967295", u32::MAX as u64), Some(4294967295));
    assert_eq!(parse("4294967296", u32::MAX as u64), None);
    for s in ["0", "17", "+9", "00", "99999", "4294967295", "4294967296", "", "+", "a", "1 2"] {
        assert_eq!(parse(s, u32::MAX as u64), s.parse::<u32>().ok().map(|v| v as u64), "{s}");
    }
}

#[test]
fn padded_decimal_reads_back() {
    for n in [0u64, 5, 42, 999, 1000, 65535, 4294967295] {
        let mut s = String::new();
        push_padded_decimal(&mut s, n, 4, '0');
        assert_eq!(parse(&s, u32::MAX as u64), Some(n));
    }
}

#[test]
fn tokens_split_on_unicode_whitespace() {
    let c = chars_of("  get\u{3000}12\t");
    let (b, e) = next_token(&c, 0).unwrap();
    assert_eq!((b, e), (2, 5));
    let (b2, e2) = next_token(&c, e).unwrap();
    assert_eq!((b2, e2), (6, 8));
    assert_eq!(next_token(&c, e2), None);
    assert_eq!(next_token(&chars_of(" \n "), 0), None);
}

#[test]
fn strings_and_chars() {
    let c = chars_of("héllo");
    assert_eq!(c, vec!['h', 'é', 'l', 'l', 'o']);
    assert_eq!(string_of(&c), "héllo");
}

use portx::num::{decimal_string, parse_hex_u16, parse_hex_u8, parse_u16, parse_u32, parse_u64};
use portx::text::{from_chars, split_lines, split_whitespace, to_chars, trim_chars};

fn chars(s: &str) -> Vec<char> {
    s.chars().collect()
}

fn strings(v: Vec<Vec<char>>) -> Vec<String> {
    v.into_iter().map(|t| t.into_iter().collect()).collect()
}

#[test]
fn parse_decimal_accepts_plain_and_plus_signed_digits() {
    assert_eq!(parse_u16(&chars("8080")), Some(8080));
    assert_eq!(parse_u16(&chars("+443")), Some(443));
    assert_eq!(parse_u16(&chars("0")), Some(0));
    assert_eq!(parse_u16(&chars("65535")), Some(65535));
}

#[test]
fn parse_decimal_rejects_what_str_parse_rejects() {
    assert_eq!(parse_u16(&chars("")), None);
    assert_eq!(parse_u16(&chars("+")), None);
    assert_eq!(parse_u16(&chars("-1")), None);
    assert_eq!(parse_u16(&chars("65536")), None);
    assert_eq!(parse_u16(&chars("12a")), None);
    assert_eq!(parse_u16(&chars("++1")), None);
    assert_eq!(parse_u16(&chars(" 1")), None);
    assert_eq!(parse_u32(&chars("4294967296")), None);
    assert_eq!(parse_u32(&chars("4294967295")), Some(u32::MAX));
    assert_eq!(parse_u64(&chars("18446744073709551615")), Some(u64::MAX));
    assert_eq!(parse_u64(&chars("18446744073709551616")), None);
}

#[test]
fn parse_hex_reads_both_cases() {
    assert_eq!(parse_hex_u16(&chars("1F90")), Some(8080));
    assert_eq!(parse_hex_u16(&chars("1f90")), Some(8080));
    assert_eq!(parse_hex_u16(&chars("FFFF")), Some(65535));
    assert_eq!(parse_hex_u16(&chars("10000")), None);
    assert_eq!(parse_hex_u16(&chars("G1")), None);
    assert_eq!(parse_hex_u8(&chars("7F")), Some(127));
    assert_eq!(parse_hex_u8(&chars("+F")), Some(15));
}

#[test]
fn parse_agrees_with_std_on_samples() {
    for s in ["", "+", "-", "0", "00", "+0", "-0", "255", "256", "65535", "65536", "1a", "٣", "+ 1"] {
        let v = chars(s);
        assert_eq!(parse_u16(&v), s.parse::<u16>().ok(), "decimal {s:?}");
        assert_eq!(parse_hex_u16(&v), u16::from_str_radix(s, 16).ok(), "hex {s:?}");
        assert_eq!(parse_hex_u8(&v), u8::from_str_radix(s, 16).ok(), "hex byte {s:?}");
    }
}

#[test]
fn decimal_rendering_matches_display() {
    for n in [0u64, 7, 10, 99, 100, 65535, 4294967295, u64::MAX] {
        assert_eq!(decimal_string(n), n.to_string());
    }
}

#[test]
fn decimal_round_trips_through_parse() {
    for n in [0u64, 1, 42, 1000, 65535] {
        assert_eq!(parse_u64(&chars(&decimal_string(n))), Some(n));
    }
}

#[test]
fn split_whitespace_matches_std() {
    for s in ["", "   ", "a", "  a b\tc  ", "x\u{a0}y", "one\ntwo  three"] {
        let expected: Vec<String> = s.split_whitespace().map(str::to_string).collect();
        assert_eq!(strings(split_whitespace(&chars(s))), expected, "{s:?}");
    }
}

#[test]
fn split_lines_matches_std() {
    for s in ["", "a", "a\n", "a\nb", "h\r\nx\n", "a\r", "\n\n", "a\r\r\nb"] {
        let expected: Vec<String> = s.lines().map(str::to_string).collect();
        assert_eq!(strings(split_lines(&chars(s))), expected, "{s:?}");
    }
}

#[test]
fn trim_matches_std() {
    for s in ["", " sshd\n", "\tnginx  ", "a b"] {
        let t: String = trim_chars(&chars(s)).into_iter().collect();
        assert_eq!(t, s.trim());
    }
}

#[test]
fn chars_and_strings_convert_both_ways() {
    let v = to_chars("héllo");
    assert_eq!(v, vec!['h', 'é', 'l', 'l', 'o']);
    assert_eq!(from_chars(&v), "héllo");
}

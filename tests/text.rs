use lighthouse::text::{decimal_text, parse_i32, parse_i64, split, trim_range, white_space};

fn chars(s: &str) -> Vec<char> {
    s.chars().collect()
}

fn string_of(v: &[char]) -> String {
    v.iter().collect()
}

#[test]
fn white_space_follows_unicode() {
    for c in [' ', '\t', '\n', '\r', '\u{b}', '\u{c}', '\u{85}', '\u{a0}', '\u{2003}', '\u{3000}'] {
        assert!(white_space(c), "{:?}", c);
        assert_eq!(white_space(c), c.is_whitespace());
    }
    for c in ['a', '|', '\u{200b}', '0', '\u{1f}'] {
        assert!(!white_space(c), "{:?}", c);
        assert_eq!(white_space(c), c.is_whitespace());
    }
}

#[test]
fn trim_matches_str_trim() {
    for s in ["  a b \t", "", "   ", "\u{3000}x\u{a0}", "plain"] {
        let v = chars(s);
        assert_eq!(string_of(&trim_range(&v, 0, v.len())), s.trim());
    }
    let v = chars("ab  cd  ef");
    assert_eq!(string_of(&trim_range(&v, 2, 8)), "cd");
}

#[test]
fn split_keeps_empty_pieces() {
    let parts = split(&chars("a||b|"), '|');
    let parts: Vec<String> = parts.iter().map(|p| string_of(p)).collect();
    assert_eq!(parts, vec!["a", "", "b", ""]);
    assert_eq!(split(&chars(""), '|').len(), 1);
}

#[test]
fn parse_i64_matches_str_parse() {
    for s in [
        "0", "42", "+42", "-42", "007", "9223372036854775807", "-9223372036854775808",
        "9223372036854775808", "-9223372036854775809", "", "-", "+", "1a", " 1", "--1",
        "99999999999999999999999",
    ] {
        assert_eq!(parse_i64(&chars(s)), s.parse::<i64>().ok(), "{:?}", s);
    }
}

#[test]
fn parse_i32_matches_str_parse() {
    for s in ["2147483647", "2147483648", "-2147483648", "-2147483649", "12", "x"] {
        assert_eq!(parse_i32(&chars(s)), s.parse::<i32>().ok(), "{:?}", s);
    }
}

#[test]
fn decimal_text_matches_format() {
    for n in [0i64, 7, -7, 10, 1234567, i64::MAX, i64::MIN] {
        assert_eq!(decimal_text(n), format!("{}", n));
    }
}

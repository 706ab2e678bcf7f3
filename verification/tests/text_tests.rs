use wisteria::text::{format_u64, join_text, parse_u64, split_text, string_of_chars, trim_text};

#[test]
fn trim_removes_surrounding_whitespace() {
    assert_eq!(trim_text("  workspacev2>>3,3\n"), "workspacev2>>3,3");
    assert_eq!(trim_text("\t\u{00a0}x y\u{3000}"), "x y");
    assert_eq!(trim_text(" \n "), "");
    assert_eq!(trim_text(""), "");
}

#[test]
fn trim_matches_std_on_samples() {
    for s in ["a", " a", "a ", "\u{2028}a\u{85}", "\u{200b}a", " 12:05 PM • Mon, Jan 06 "] {
        assert_eq!(trim_text(s), s.trim());
    }
}

#[test]
fn trim_twice_is_trim_once() {
    let s = "\r\n  hello \t";
    assert_eq!(trim_text(&trim_text(s)), trim_text(s));
}

#[test]
fn split_on_separator() {
    assert_eq!(split_text("focusedmonv2>>DP-1,3", ">>"), vec!["focusedmonv2", "DP-1,3"]);
    assert_eq!(split_text("a,b,,c", ","), vec!["a", "b", "", "c"]);
    assert_eq!(split_text("", ","), vec![""]);
    assert_eq!(split_text(">>>", ">>"), vec!["", ">"]);
    assert_eq!(split_text("x>>", ">>"), vec!["x", ""]);
}

#[test]
fn split_matches_std_on_samples() {
    for (s, sep) in [("a>>b>>c", ">>"), ("a>>>>b", ">>"), (",,", ","), ("no separator", ";")] {
        let expected: Vec<String> = s.split(sep).map(|p| p.to_string()).collect();
        assert_eq!(split_text(s, sep), expected);
    }
}

#[test]
fn parse_decimal_numbers() {
    assert_eq!(parse_u64("42"), Some(42));
    assert_eq!(parse_u64("+7"), Some(7));
    assert_eq!(parse_u64("007"), Some(7));
    assert_eq!(parse_u64("18446744073709551615"), Some(u64::MAX));
    assert_eq!(parse_u64("18446744073709551616"), None);
    assert_eq!(parse_u64(""), None);
    assert_eq!(parse_u64("+"), None);
    assert_eq!(parse_u64("-1"), None);
    assert_eq!(parse_u64("1a"), None);
    assert_eq!(parse_u64(" 1"), None);
    assert_eq!(parse_u64("١"), None);
}

#[test]
fn parse_matches_std_on_samples() {
    for s in ["0", "+0", "99999999999999999999", "12 ", "+-3", "4294967296"] {
        assert_eq!(parse_u64(s), s.parse::<u64>().ok());
    }
}

#[test]
fn format_decimal_numbers() {
    assert_eq!(format_u64(0), "0");
    assert_eq!(format_u64(7), "7");
    assert_eq!(format_u64(10), "10");
    assert_eq!(format_u64(1234567890), "1234567890");
    assert_eq!(format_u64(u64::MAX), u64::MAX.to_string());
}

#[test]
fn decimal_roundtrip_on_samples() {
    for n in [0u64, 9, 10, 11, 100, 65535, u64::MAX - 1, u64::MAX] {
        assert_eq!(parse_u64(&format_u64(n)), Some(n));
    }
}

#[test]
fn join_with_separator() {
    let parts = vec!["Luna Li".to_string(), "Jay Som".to_string()];
    assert_eq!(join_text(&parts, ", "), "Luna Li, Jay Som");
    assert_eq!(join_text(&vec!["solo".to_string()], ", "), "solo");
    assert_eq!(join_text(&Vec::new(), ", "), "");
}

#[test]
fn chars_to_string() {
    assert_eq!(string_of_chars(&vec!['a', '•', 'b']), "a•b");
    assert_eq!(string_of_chars(&Vec::new()), "");
}

#[test]
fn split_then_join_gives_back_the_text() {
    for (s, sep) in [("focusedmonv2>>DP-1,3", ">>"), ("a,,b,", ","), ("", ","), (">>>>", ">>")] {
        assert_eq!(join_text(&split_text(s, sep), sep), s);
    }
}

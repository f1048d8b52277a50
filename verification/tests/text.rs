use miner_config::text::{decimal_string, digit_of, find_char, has_scheme_separator};

#[test]
fn find_char_gives_first_position() {
    assert_eq!(find_char("alpha:xyz", ':'), Some(5));
    assert_eq!(find_char("a:b:c", ':'), Some(1));
    assert_eq!(find_char(":", ':'), Some(0));
    assert_eq!(find_char("abc", 'c'), Some(2));
}

#[test]
fn find_char_absent() {
    assert_eq!(find_char("", ':'), None);
    assert_eq!(find_char("127.0.0.1", ':'), None);
}

#[test]
fn find_char_counts_characters() {
    assert_eq!(find_char("\u{e9}\u{e9}:x", ':'), Some(2));
}

#[test]
fn scheme_separator_found() {
    assert!(has_scheme_separator("grpc://1.2.3.4:5"));
    assert!(has_scheme_separator("://"));
    assert!(has_scheme_separator("a:///"));
    assert!(has_scheme_separator("a:b://c"));
    assert!(has_scheme_separator(":/://"));
    assert!(has_scheme_separator("x::://"));
}

#[test]
fn scheme_separator_not_found() {
    assert!(!has_scheme_separator(""));
    assert!(!has_scheme_separator(":"));
    assert!(!has_scheme_separator(":/"));
    assert!(!has_scheme_separator("//:"));
    assert!(!has_scheme_separator("a:/b/"));
    assert!(!has_scheme_separator("1.2.3.4:9999"));
    assert!(!has_scheme_separator("a:/:/"));
}

#[test]
fn decimal_string_of_ports() {
    assert_eq!(decimal_string(0), "0");
    assert_eq!(decimal_string(7), "7");
    assert_eq!(decimal_string(10), "10");
    assert_eq!(decimal_string(16211), "16211");
    assert_eq!(decimal_string(42110), "42110");
    assert_eq!(decimal_string(u16::MAX), "65535");
}

#[test]
fn decimal_string_as_std_writes_it() {
    for n in 0..=u16::MAX {
        assert_eq!(decimal_string(n), format!("{}", n));
    }
}

#[test]
fn digit_of_digits_only() {
    assert_eq!(digit_of('0'), Some(0));
    assert_eq!(digit_of('9'), Some(9));
    assert_eq!(digit_of('/'), None);
    assert_eq!(digit_of(':'), None);
    assert_eq!(digit_of('a'), None);
    assert_eq!(digit_of('\u{0661}'), None);
}

use miner_config::percent::{
    encode_percent, parse_devfund_percent, parse_segment, ParseError, MAX_DEVFUND_PERCENT,
};

#[test]
fn parse_zero() {
    assert_eq!(parse_devfund_percent("0"), Ok(0));
}

#[test]
fn parse_largest_share() {
    assert_eq!(parse_devfund_percent("99.99"), Ok(9999));
    assert_eq!(MAX_DEVFUND_PERCENT, 9999);
}

#[test]
fn parse_whole_percents_only() {
    assert_eq!(parse_devfund_percent("99"), Ok(9900));
    assert_eq!(parse_devfund_percent("5"), Ok(500));
    assert_eq!(parse_devfund_percent("07"), Ok(700));
}

#[test]
fn parse_two_groups() {
    assert_eq!(parse_devfund_percent("12.34"), Ok(1234));
    assert_eq!(parse_devfund_percent("5.00"), Ok(500));
    assert_eq!(parse_devfund_percent("1.05"), Ok(105));
    assert_eq!(parse_devfund_percent("00.00"), Ok(0));
}

#[test]
fn parse_lone_fraction_digit_counts_hundredths() {
    assert_eq!(parse_devfund_percent("0.5"), Ok(5));
    assert_eq!(parse_devfund_percent("3.7"), Ok(307));
    assert_eq!(parse_devfund_percent("0.50"), Ok(50));
}

#[test]
fn parse_every_well_formed_text() {
    for whole in 0u16..100 {
        for hundredths in 0u16..100 {
            let expected = Ok(whole * 100 + hundredths);
            let long = format!("{:02}.{:02}", whole, hundredths);
            assert_eq!(parse_devfund_percent(&long), expected);
            let short = format!("{}.{}", whole, hundredths);
            assert_eq!(parse_devfund_percent(&short), expected);
        }
        assert_eq!(parse_devfund_percent(&format!("{}", whole)), Ok(whole * 100));
    }
}

#[test]
fn parse_three_digits_refused() {
    assert_eq!(parse_devfund_percent("100"), Err(ParseError::MalformedPercent));
    assert_eq!(parse_devfund_percent("100.00"), Err(ParseError::MalformedPercent));
    assert_eq!(parse_devfund_percent("5.555"), Err(ParseError::MalformedPercent));
    assert_eq!(parse_devfund_percent("1.000"), Err(ParseError::MalformedPercent));
}

#[test]
fn parse_trailing_dot_refused() {
    assert_eq!(parse_devfund_percent("12."), Err(ParseError::MalformedPercent));
}

#[test]
fn parse_leading_dot_refused() {
    assert_eq!(parse_devfund_percent(".5"), Err(ParseError::MalformedPercent));
    assert_eq!(parse_devfund_percent("."), Err(ParseError::MalformedPercent));
}

#[test]
fn parse_second_dot_refused() {
    assert_eq!(parse_devfund_percent("1.2.3"), Err(ParseError::MalformedPercent));
    assert_eq!(parse_devfund_percent("1..2"), Err(ParseError::MalformedPercent));
    assert_eq!(parse_devfund_percent("1.2."), Err(ParseError::MalformedPercent));
}

#[test]
fn parse_empty_refused() {
    assert_eq!(parse_devfund_percent(""), Err(ParseError::MalformedPercent));
}

#[test]
fn parse_other_characters_refused() {
    assert_eq!(parse_devfund_percent("a"), Err(ParseError::MalformedPercent));
    assert_eq!(parse_devfund_percent("1a"), Err(ParseError::MalformedPercent));
    assert_eq!(parse_devfund_percent("-1"), Err(ParseError::MalformedPercent));
    assert_eq!(parse_devfund_percent("+5"), Err(ParseError::MalformedPercent));
    assert_eq!(parse_devfund_percent("1.+5"), Err(ParseError::MalformedPercent));
    assert_eq!(parse_devfund_percent(" 1"), Err(ParseError::MalformedPercent));
    assert_eq!(parse_devfund_percent("1,5"), Err(ParseError::MalformedPercent));
    assert_eq!(parse_devfund_percent("\u{0661}"), Err(ParseError::MalformedPercent));
    assert_eq!(parse_devfund_percent("\u{e9}\u{e9}"), Err(ParseError::MalformedPercent));
}

#[test]
fn encode_joins_the_parts() {
    assert_eq!(encode_percent(0, 0), Ok(0));
    assert_eq!(encode_percent(12, 34), Ok(1234));
    assert_eq!(encode_percent(99, 99), Ok(9999));
    assert_eq!(encode_percent(0, 5), Ok(5));
}

#[test]
fn encode_refuses_a_hundred() {
    assert_eq!(encode_percent(100, 0), Err(ParseError::OutOfRange));
    assert_eq!(encode_percent(0, 100), Err(ParseError::OutOfRange));
    assert_eq!(encode_percent(655, 35), Err(ParseError::OutOfRange));
    assert_eq!(encode_percent(u16::MAX, u16::MAX), Err(ParseError::OutOfRange));
}

#[test]
fn segment_of_one_or_two_digits() {
    assert_eq!(parse_segment("0"), Some(0));
    assert_eq!(parse_segment("9"), Some(9));
    assert_eq!(parse_segment("10"), Some(10));
    assert_eq!(parse_segment("99"), Some(99));
    assert_eq!(parse_segment("05"), Some(5));
}

#[test]
fn segment_refused() {
    assert_eq!(parse_segment(""), None);
    assert_eq!(parse_segment("100"), None);
    assert_eq!(parse_segment("x"), None);
    assert_eq!(parse_segment("1x"), None);
    assert_eq!(parse_segment("x1"), None);
    assert_eq!(parse_segment("+1"), None);
}

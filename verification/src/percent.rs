//! The devfund share: a decimal text of at most two digits before and after
//! one optional dot, kept as hundredths of a percent.

use vstd::prelude::*;
use crate::text::{
    digit_of, digit_value, find_char, first_index_of, is_digit, is_first_index_of,
    lemma_first_index_of_absent, lemma_first_index_of_unique,
};

verus! {

/// Why a devfund share was refused.
#[derive(Debug, Clone, Copy, PartialEq, Eq, Structural)]
pub enum ParseError {
    /// The text is not one or two groups of one or two digits, parted by a dot.
    MalformedPercent,
    /// A group stands for a hundred or more.
    OutOfRange,
}

/// The largest share that can be written: 99.99 percent, in hundredths.
pub const MAX_DEVFUND_PERCENT: u16 = 9999;

/// A group of digits of a share: one or two ASCII digits.
pub open spec fn is_segment(t: Seq<char>) -> bool {
    &&& 1 <= t.len() <= 2
    &&& forall|i: int| 0 <= i < t.len() ==> is_digit(#[trigger] t[i])
}

/// The number that a group of digits stands for.
pub open spec fn segment_value(t: Seq<char>) -> int
    recommends
        is_segment(t),
{
    if t.len() == 1 {
        digit_value(t[0])
    } else {
        10 * digit_value(t[0]) + digit_value(t[1])
    }
}

/// The two groups of a share: what stands before the first dot and what
/// stands after it, or the whole text and a zero where there is no dot.
/// A second dot leaves no reading.
pub open spec fn percent_parts(s: Seq<char>) -> Option<(Seq<char>, Seq<char>)> {
    match first_index_of(s, '.') {
        None => Some((s, seq!['0'])),
        Some(k) => if s.skip(k + 1).contains('.') {
            None
        } else {
            Some((s.take(k), s.skip(k + 1)))
        },
    }
}

/// Whole percents and hundredths as one number of hundredths.
pub open spec fn encoded_percent(integer_part: int, fractional_part: int) -> Result<
    u16,
    ParseError,
> {
    if integer_part >= 100 || fractional_part >= 100 {
        Err(ParseError::OutOfRange)
    } else {
        Ok((integer_part * 100 + fractional_part) as u16)
    }
}

/// What a share's text stands for.
///
/// A lone digit after the dot counts hundredths, not tenths: `0.5` is five
/// hundredths of a percent.
pub open spec fn percent_of(s: Seq<char>) -> Result<u16, ParseError> {
    match percent_parts(s) {
        Some((whole, hundredths)) => if is_segment(whole) && is_segment(hundredths) {
            encoded_percent(segment_value(whole), segment_value(hundredths))
        } else {
            Err(ParseError::MalformedPercent)
        },
        None => Err(ParseError::MalformedPercent),
    }
}

/// Joins whole percents and hundredths, each below a hundred, into hundredths
/// of a percent.
pub fn encode_percent(integer_part: u16, fractional_part: u16) -> (encoded: Result<u16, ParseError>)
    ensures
        encoded == encoded_percent(integer_part as int, fractional_part as int),
        encoded matches Ok(v) ==> v <= MAX_DEVFUND_PERCENT,
{
    if integer_part >= 100 || fractional_part >= 100 {
        Err(ParseError::OutOfRange)
    } else {
        Ok(integer_part * 100 + fractional_part)
    }
}

/// Reads a group of one or two digits.
pub fn parse_segment(t: &str) -> (value: Option<u16>)
    ensures
        value is Some <==> is_segment(t@),
        value matches Some(v) ==> v == segment_value(t@) && v <= 99,
{
    let n: usize = t.unicode_len();
    if n == 0 || n > 2 {
        return None;
    }
    let high: u16 = match digit_of(t.get_char(0)) {
        Some(d) => d,
        None => {
            return None;
        },
    };
    if n == 1 {
        return Some(high);
    }
    match digit_of(t.get_char(1)) {
        Some(low) => Some(10 * high + low),
        None => None,
    }
}

/// Reads a devfund share such as `12.34`, and gives it in hundredths of a
/// percent.
pub fn parse_devfund_percent(s: &str) -> (parsed: Result<u16, ParseError>)
    ensures
        parsed == percent_of(s@),
        parsed matches Ok(v) ==> v <= MAX_DEVFUND_PERCENT,
{
    let n: usize = s.unicode_len();
    let (whole, hundredths): (&str, &str) = match find_char(s, '.') {
        None => {
            proof {
                reveal_strlit("0");
                assert("0"@ =~= seq!['0']);
            }
            (s, "0")
        },
        Some(k) => {
            let rest: &str = s.substring_char(k + 1, n);
            if find_char(rest, '.').is_some() {
                return Err(ParseError::MalformedPercent);
            }
            (s.substring_char(0, k), rest)
        },
    };
    let integer_part: u16 = match parse_segment(whole) {
        Some(v) => v,
        None => {
            return Err(ParseError::MalformedPercent);
        },
    };
    let fractional_part: u16 = match parse_segment(hundredths) {
        Some(v) => v,
        None => {
            return Err(ParseError::MalformedPercent);
        },
    };
    encode_percent(integer_part, fractional_part)
}

/// A group of one or two digits stands for a number below a hundred.
pub proof fn lemma_segment_value_bounds(t: Seq<char>)
    requires
        is_segment(t),
    ensures
        0 <= segment_value(t) <= 99,
        !t.contains('.'),
{
    assert(is_digit(t[0]));
    if t.len() == 2 {
        assert(is_digit(t[1]));
    }
    assert forall|i: int| 0 <= i < t.len() implies t[i] != '.' by {
        assert(is_digit(t[i]));
    }
}

/// One or two digits, alone or followed by a dot and one or two more digits,
/// are always accepted, and stand for a hundred times the first group plus
/// the second.
pub proof fn lemma_well_formed_percent_accepted(whole: Seq<char>, hundredths: Seq<char>)
    requires
        is_segment(whole),
        is_segment(hundredths),
    ensures
        percent_of(whole) == Ok::<u16, ParseError>((segment_value(whole) * 100) as u16),
        percent_of(whole + seq!['.'] + hundredths) == Ok::<u16, ParseError>(
            (segment_value(whole) * 100 + segment_value(hundredths)) as u16,
        ),
        0 <= segment_value(whole) * 100 + segment_value(hundredths) <= MAX_DEVFUND_PERCENT,
{
    lemma_segment_value_bounds(whole);
    lemma_segment_value_bounds(hundredths);
    lemma_first_index_of_absent(whole, '.');
    assert(segment_value(seq!['0']) == 0);
    assert(is_segment(seq!['0']));

    let s = whole + seq!['.'] + hundredths;
    let k = whole.len() as int;
    assert(is_first_index_of(s, '.', k));
    lemma_first_index_of_unique(s, '.', k);
    assert(s.take(k) =~= whole);
    assert(s.skip(k + 1) =~= hundredths);
}

/// Nothing but such texts is accepted, no text is refused as out of range,
/// and what is accepted is at most 99.99 percent.
pub proof fn lemma_percent_accepted_only_well_formed(s: Seq<char>)
    ensures
        percent_of(s) is Ok <==> is_segment(s) || exists|whole: Seq<char>, hundredths: Seq<char>|
            is_segment(whole) && is_segment(hundredths) && s == whole + seq!['.'] + hundredths,
        percent_of(s) is Err ==> percent_of(s) == Err::<u16, ParseError>(
            ParseError::MalformedPercent,
        ),
        percent_of(s) matches Ok(v) ==> v <= MAX_DEVFUND_PERCENT,
{
    if is_segment(s) {
        lemma_well_formed_percent_accepted(s, s);
    }
    if exists|whole: Seq<char>, hundredths: Seq<char>|
        is_segment(whole) && is_segment(hundredths) && s == whole + seq!['.'] + hundredths {
        let (whole, hundredths) = choose|whole: Seq<char>, hundredths: Seq<char>|
            is_segment(whole) && is_segment(hundredths) && s == whole + seq!['.'] + hundredths;
        lemma_well_formed_percent_accepted(whole, hundredths);
    }
    if percent_of(s) is Ok {
        let (whole, hundredths) = percent_parts(s).unwrap();
        lemma_segment_value_bounds(whole);
        lemma_segment_value_bounds(hundredths);
        match first_index_of(s, '.') {
            None => {
                assert(whole == s);
            },
            Some(k) => {
                assert(is_first_index_of(s, '.', k));
                assert(s =~= whole + seq!['.'] + hundredths);
            },
        }
    } else {
        match percent_parts(s) {
            Some((whole, hundredths)) => {
                if is_segment(whole) && is_segment(hundredths) {
                    lemma_segment_value_bounds(whole);
                    lemma_segment_value_bounds(hundredths);
                }
            },
            None => {},
        }
    }
}

} // verus!

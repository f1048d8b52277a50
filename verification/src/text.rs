//! Searching character sequences, and the decimal text of a number.

use vstd::prelude::*;
use vstd::string::StringExecFns;

verus! {

/// `i` is a position of `c` in `s`, and `c` does not occur before it.
pub open spec fn is_first_index_of(s: Seq<char>, c: char, i: int) -> bool {
    &&& 0 <= i < s.len()
    &&& s[i] == c
    &&& forall|j: int| 0 <= j < i ==> s[j] != c
}

/// The position of the first `c` in `s`, if `c` occurs in `s` at all.
pub open spec fn first_index_of(s: Seq<char>, c: char) -> Option<int> {
    if exists|i: int| is_first_index_of(s, c, i) {
        Some(choose|i: int| is_first_index_of(s, c, i))
    } else {
        None
    }
}

/// There is at most one first position, so naming one fixes `first_index_of`.
pub proof fn lemma_first_index_of_unique(s: Seq<char>, c: char, i: int)
    requires
        is_first_index_of(s, c, i),
    ensures
        first_index_of(s, c) == Some(i),
{
    let k = choose|k: int| is_first_index_of(s, c, k);
    assert(is_first_index_of(s, c, k));
    if k < i {
        assert(s[k] != c);
    } else if i < k {
        assert(s[i] != c);
    }
}

/// A sequence without `c` has no first position of `c`.
pub proof fn lemma_first_index_of_absent(s: Seq<char>, c: char)
    requires
        forall|j: int| 0 <= j < s.len() ==> s[j] != c,
    ensures
        first_index_of(s, c) is None,
{
}

/// A sequence that holds `c` has a first position of `c`.
pub proof fn lemma_contains_has_first_index(s: Seq<char>, c: char)
    ensures
        s.contains(c) <==> first_index_of(s, c) is Some,
        first_index_of(s, c) matches Some(i) ==> is_first_index_of(s, c, i),
{
    if s.contains(c) {
        let i = least_index_of(s, c, s.len() as int);
        lemma_first_index_of_unique(s, c, i);
    }
    if first_index_of(s, c) is Some {
        let i = first_index_of(s, c)->Some_0;
        assert(is_first_index_of(s, c, i));
        assert(s[i] == c);
    }
}

/// Finds the first position of `c` below `bound` by walking down from it.
proof fn least_index_of(s: Seq<char>, c: char, bound: int) -> (i: int)
    requires
        0 <= bound <= s.len(),
        exists|j: int| 0 <= j < bound && s[j] == c,
    ensures
        is_first_index_of(s, c, i),
    decreases bound,
{
    let last = bound - 1;
    if exists|j: int| 0 <= j < last && s[j] == c {
        least_index_of(s, c, last)
    } else {
        assert(s[last] == c);
        last
    }
}

/// Finds the first `c` in `s`, counting positions in characters.
pub fn find_char(s: &str, c: char) -> (found: Option<usize>)
    ensures
        found is Some <==> s@.contains(c),
        match found {
            Some(i) => first_index_of(s@, c) == Some(i as int),
            None => first_index_of(s@, c) is None,
        },
{
    let n: usize = s.unicode_len();
    let mut i: usize = 0;
    for ch in it: s.chars()
        invariant
            n == s@.len(),
            it.seq() == s@,
            i == it.index(),
            forall|j: int| 0 <= j < i ==> s@[j] != c,
    {
        if ch == c {
            proof {
                lemma_first_index_of_unique(s@, c, i as int);
            }
            return Some(i);
        }
        i = i + 1;
    }
    proof {
        lemma_first_index_of_absent(s@, c);
    }
    None
}

/// `pat` stands in `s` at position `i`.
pub open spec fn occurs_at(s: Seq<char>, pat: Seq<char>, i: int) -> bool {
    &&& 0 <= i
    &&& i + pat.len() <= s.len()
    &&& s.subrange(i, i + pat.len()) == pat
}

/// `pat` stands somewhere in `s`.
pub open spec fn has_infix(s: Seq<char>, pat: Seq<char>) -> bool {
    exists|i: int| occurs_at(s, pat, i)
}

/// The three characters that part a scheme from what follows it in a URI.
pub open spec fn scheme_separator() -> Seq<char> {
    seq![':', '/', '/']
}

/// Whether `s` holds the separator `://` anywhere.
pub fn has_scheme_separator(s: &str) -> (found: bool)
    ensures
        found == has_infix(s@, scheme_separator()),
{
    let n: usize = s.unicode_len();
    let mut i: usize = 0;
    let mut last: char = ' ';
    let mut before_last: char = ' ';
    for ch in it: s.chars()
        invariant
            n == s@.len(),
            it.seq() == s@,
            i == it.index(),
            i >= 1 ==> last == s@[i - 1],
            i >= 2 ==> before_last == s@[i - 2],
            forall|j: int| 0 <= j && j + 3 <= i ==> !occurs_at(s@, scheme_separator(), j),
    {
        if i >= 2 && before_last == ':' && last == '/' && ch == '/' {
            assert(occurs_at(s@, scheme_separator(), i - 2)) by {
                assert(s@.subrange(i - 2, i - 2 + 3) =~= scheme_separator());
            }
            return true;
        }
        assert(!occurs_at(s@, scheme_separator(), i - 2)) by {
            if i >= 2 {
                let w = s@.subrange(i - 2, i - 2 + 3);
                assert(w[0] == before_last && w[1] == last && w[2] == ch);
            }
        }
        before_last = last;
        last = ch;
        i = i + 1;
    }
    false
}

/// Whether `c` is one of the ten ASCII digits.
pub open spec fn is_digit(c: char) -> bool {
    '0' <= c <= '9'
}

/// The number that the digit `c` stands for.
pub open spec fn digit_value(c: char) -> int
    recommends
        is_digit(c),
{
    c as int - '0' as int
}

/// The digit that stands for `d`.
pub open spec fn digit_char(d: int) -> char
    recommends
        0 <= d <= 9,
{
    ('0' as int + d) as char
}

/// The decimal text of `n`: no sign, no leading zero but for zero itself.
pub open spec fn decimal_text(n: nat) -> Seq<char>
    decreases n,
{
    if n < 10 {
        seq![digit_char(n as int)]
    } else {
        decimal_text(n / 10).push(digit_char((n % 10) as int))
    }
}

/// The decimal text of a number is made of digits, and of at least one.
pub proof fn lemma_decimal_text_digits(n: nat)
    ensures
        decimal_text(n).len() >= 1,
        forall|i: int| 0 <= i < decimal_text(n).len() ==> is_digit(#[trigger] decimal_text(n)[i]),
    decreases n,
{
    if n >= 10 {
        lemma_decimal_text_digits(n / 10);
    }
}

/// Reads one digit; `None` for any other character.
pub fn digit_of(c: char) -> (d: Option<u16>)
    ensures
        d is Some <==> is_digit(c),
        d matches Some(v) ==> v == digit_value(c) && v <= 9,
{
    if '0' <= c && c <= '9' {
        Some((c as u32 - '0' as u32) as u16)
    } else {
        None
    }
}

/// The one-character text of a digit.
fn digit_str(d: u16) -> (text: &'static str)
    requires
        d <= 9,
    ensures
        text@ == seq![digit_char(d as int)],
{
    proof {
        reveal_strlit("0");
        reveal_strlit("1");
        reveal_strlit("2");
        reveal_strlit("3");
        reveal_strlit("4");
        reveal_strlit("5");
        reveal_strlit("6");
        reveal_strlit("7");
        reveal_strlit("8");
        reveal_strlit("9");
    }
    let text = match d {
        0 => "0",
        1 => "1",
        2 => "2",
        3 => "3",
        4 => "4",
        5 => "5",
        6 => "6",
        7 => "7",
        8 => "8",
        _ => "9",
    };
    assert(text@ =~= seq![digit_char(d as int)]);
    text
}

/// Writes `n` in decimal.
pub fn decimal_string(n: u16) -> (text: String)
    ensures
        text@ == decimal_text(n as nat),
    decreases n,
{
    if n < 10 {
        String::from_str(digit_str(n))
    } else {
        let mut text = decimal_string(n / 10);
        text.append(digit_str(n % 10));
        assert(text@ =~= decimal_text(n as nat));
        text
    }
}

} // verus!

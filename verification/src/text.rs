//! Numbers as text, and text as numbers.

use vstd::prelude::*;
use vstd::string::*;

verus! {

/// The single digit `d` (below sixteen) as text, lower case.
pub open spec fn digit_text(d: nat) -> Seq<char> {
    if d == 0 {
        "0"@
    } else if d == 1 {
        "1"@
    } else if d == 2 {
        "2"@
    } else if d == 3 {
        "3"@
    } else if d == 4 {
        "4"@
    } else if d == 5 {
        "5"@
    } else if d == 6 {
        "6"@
    } else if d == 7 {
        "7"@
    } else if d == 8 {
        "8"@
    } else if d == 9 {
        "9"@
    } else if d == 10 {
        "a"@
    } else if d == 11 {
        "b"@
    } else if d == 12 {
        "c"@
    } else if d == 13 {
        "d"@
    } else if d == 14 {
        "e"@
    } else {
        "f"@
    }
}

/// `n` in decimal, most significant digit first, without leading zeros; zero
/// is "0".
pub open spec fn decimal_text(n: nat) -> Seq<char>
    decreases n,
{
    if n < 10 {
        digit_text(n)
    } else {
        decimal_text(n / 10) + digit_text(n % 10)
    }
}

/// `n` in lower-case hexadecimal, without leading zeros; zero is "0".
pub open spec fn hex_text(n: nat) -> Seq<char>
    decreases n,
{
    if n < 16 {
        digit_text(n)
    } else {
        hex_text(n / 16) + digit_text(n % 16)
    }
}

/// `n` in decimal, at least two digits wide, padded with a zero.
pub open spec fn two_digit_text(n: nat) -> Seq<char> {
    if n < 10 {
        "0"@ + decimal_text(n)
    } else {
        decimal_text(n)
    }
}

fn digit_str(d: u64) -> (s: &'static str)
    requires
        d < 16,
    ensures
        s@ == digit_text(d as nat),
{
    if d == 0 {
        "0"
    } else if d == 1 {
        "1"
    } else if d == 2 {
        "2"
    } else if d == 3 {
        "3"
    } else if d == 4 {
        "4"
    } else if d == 5 {
        "5"
    } else if d == 6 {
        "6"
    } else if d == 7 {
        "7"
    } else if d == 8 {
        "8"
    } else if d == 9 {
        "9"
    } else if d == 10 {
        "a"
    } else if d == 11 {
        "b"
    } else if d == 12 {
        "c"
    } else if d == 13 {
        "d"
    } else if d == 14 {
        "e"
    } else {
        "f"
    }
}

/// `n` in decimal.
pub fn decimal_string(n: u64) -> (s: String)
    ensures
        s@ == decimal_text(n as nat),
    decreases n,
{
    if n < 10 {
        String::from_str(digit_str(n))
    } else {
        let mut s = decimal_string(n / 10);
        s.append(digit_str(n % 10));
        s
    }
}

/// `n` in lower-case hexadecimal.
pub fn hex_string(n: u64) -> (s: String)
    ensures
        s@ == hex_text(n as nat),
    decreases n,
{
    if n < 16 {
        String::from_str(digit_str(n))
    } else {
        let mut s = hex_string(n / 16);
        s.append(digit_str(n % 16));
        s
    }
}

/// `n` in decimal, at least two digits wide, padded with a zero.
pub fn two_digit_string(n: u64) -> (s: String)
    ensures
        s@ == two_digit_text(n as nat),
{
    if n < 10 {
        let mut s = String::from_str("0");
        s.append(decimal_string(n).as_str());
        s
    } else {
        decimal_string(n)
    }
}

/// What the character counts for as a decimal digit, if it is one.
pub open spec fn digit_value(c: char) -> Option<nat> {
    if '0' <= c && c <= '9' {
        Some((c as nat - '0' as nat) as nat)
    } else {
        None
    }
}

/// The number that a run of decimal digits stands for; none where a
/// character is no digit. The empty run stands for zero.
pub open spec fn digits_value(s: Seq<char>) -> Option<nat>
    decreases s.len(),
{
    if s.len() == 0 {
        Some(0)
    } else {
        match (digits_value(s.drop_last()), digit_value(s.last())) {
            (Some(v), Some(d)) => Some(v * 10 + d),
            _ => None,
        }
    }
}

/// The text without its sign, where it starts with `+`.
pub open spec fn unsigned_part(s: Seq<char>) -> Seq<char> {
    if s.len() > 0 && s[0] == '+' {
        s.skip(1)
    } else {
        s
    }
}

/// The number that the text stands for, read as an unsigned decimal number
/// of 64 bits: an optional `+`, then one digit or more, and nothing else.
/// None where the text is not of that form or the number does not fit.
pub open spec fn parse_u64_text(s: Seq<char>) -> Option<u64> {
    if unsigned_part(s).len() == 0 {
        None
    } else {
        match digits_value(unsigned_part(s)) {
            Some(v) => if v <= u64::MAX {
                Some(v as u64)
            } else {
                None
            },
            None => None,
        }
    }
}

/// A run of digits stands for no less than any run it starts with, and a run
/// that stands for a number starts only with runs that do.
pub proof fn lemma_digits_value_grows(s: Seq<char>, k: int)
    requires
        0 <= k <= s.len(),
        digits_value(s) is Some,
    ensures
        digits_value(s.take(k)) is Some,
        digits_value(s.take(k))->0 <= digits_value(s)->0,
    decreases s.len(),
{
    if k == s.len() {
        assert(s.take(k) == s);
    } else {
        lemma_digits_value_grows(s.drop_last(), k);
        assert(s.drop_last().take(k) == s.take(k));
    }
}

fn digit_of(c: char) -> (d: Option<u64>)
    ensures
        match d {
            Some(v) => digit_value(c) == Some(v as nat) && v < 10,
            None => digit_value(c) is None,
        },
{
    if '0' <= c && c <= '9' {
        Some(c as u64 - '0' as u64)
    } else {
        None
    }
}

/// Reads the text as an unsigned decimal number of 64 bits.
pub fn parse_u64(s: &str) -> (n: Option<u64>)
    ensures
        n == parse_u64_text(s@),
{
    let len = s.unicode_len();
    let start: usize = if len > 0 && s.get_char(0) == '+' {
        1
    } else {
        0
    };
    if start == len {
        return None;
    }
    let ghost body = unsigned_part(s@);
    let mut value: u64 = 0;
    let mut i: usize = start;
    proof {
        assert(body.take(0) == Seq::<char>::empty());
    }
    while i < len
        invariant
            start <= i <= len,
            len == s@.len(),
            body == unsigned_part(s@),
            body.len() == len - start,
            forall|k: int| 0 <= k < body.len() ==> body[k] == s@[k + start],
            digits_value(body.take(i - start)) == Some(value as nat),
        decreases len - i,
    {
        let c = s.get_char(i);
        proof {
            assert(body.take(i - start + 1).drop_last() == body.take(i - start));
            assert(body.take(i - start + 1).last() == c);
            if digits_value(body) is Some {
                lemma_digits_value_grows(body, i - start + 1);
            }
        }
        match digit_of(c) {
            Some(d) => {
                if value > (u64::MAX - d) / 10 {
                    return None;
                }
                value = value * 10 + d;
            },
            None => {
                return None;
            },
        }
        i += 1;
    }
    proof {
        assert(body.take(i - start) == body);
    }
    Some(value)
}

} // verus!

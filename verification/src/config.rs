//! The configured values, read out of their text form.

use crate::text::{chars_of, split, split_text, texts};
use vstd::prelude::*;

verus! {

/// The port of the mail server where none is configured.
pub const DEFAULT_IMAP_PORT: u16 = 993;

/// The value of a decimal digit; none for any other character.
pub open spec fn digit_value(c: char) -> Option<nat> {
    if c == '0' {
        Some(0)
    } else if c == '1' {
        Some(1)
    } else if c == '2' {
        Some(2)
    } else if c == '3' {
        Some(3)
    } else if c == '4' {
        Some(4)
    } else if c == '5' {
        Some(5)
    } else if c == '6' {
        Some(6)
    } else if c == '7' {
        Some(7)
    } else if c == '8' {
        Some(8)
    } else if c == '9' {
        Some(9)
    } else {
        None
    }
}

/// Every character of `s` is a decimal digit.
pub open spec fn all_digits(s: Seq<char>) -> bool {
    forall|i: int| 0 <= i < s.len() ==> digit_value(#[trigger] s[i]) is Some
}

/// The number that the digits `s` write.
pub open spec fn digits_value(s: Seq<char>) -> nat
    decreases s.len(),
{
    if s.len() == 0 {
        0
    } else {
        digits_value(s.drop_last()) * 10 + digit_value(s.last())->Some_0
    }
}

/// The digits of a numeral, its optional leading `+` taken off.
pub open spec fn unsigned_digits(text: Seq<char>) -> Seq<char> {
    if text.len() > 0 && text[0] == '+' {
        text.skip(1)
    } else {
        text
    }
}

/// The port that `text` writes: one or more decimal digits, after an
/// optional `+`, that make a number of 16 bits.
pub open spec fn port_of(text: Seq<char>) -> Option<u16> {
    let digits = unsigned_digits(text);
    if digits.len() > 0 && all_digits(digits) && digits_value(digits) <= u16::MAX {
        Some(digits_value(digits) as u16)
    } else {
        None
    }
}

/// The configured port: the default where nothing is configured, else what
/// the configured text writes.
pub open spec fn configured_port(raw: Option<Seq<char>>) -> Option<u16> {
    match raw {
        None => Some(DEFAULT_IMAP_PORT),
        Some(text) => port_of(text),
    }
}

/// The value of the digit `c`.
fn digit_of(c: char) -> (d: Option<u32>)
    ensures
        match d {
            Some(v) => digit_value(c) == Some(v as nat),
            None => digit_value(c) is None,
        },
{
    if c == '0' {
        Some(0)
    } else if c == '1' {
        Some(1)
    } else if c == '2' {
        Some(2)
    } else if c == '3' {
        Some(3)
    } else if c == '4' {
        Some(4)
    } else if c == '5' {
        Some(5)
    } else if c == '6' {
        Some(6)
    } else if c == '7' {
        Some(7)
    } else if c == '8' {
        Some(8)
    } else if c == '9' {
        Some(9)
    } else {
        None
    }
}

/// A numeral is worth at least as much as any numeral it begins with.
proof fn lemma_digits_value_grows(s: Seq<char>, n: int)
    requires
        0 <= n <= s.len(),
    ensures
        digits_value(s.take(n)) <= digits_value(s),
    decreases s.len() - n,
{
    if n == s.len() {
        assert(s.take(n) =~= s);
    } else {
        lemma_digits_value_grows(s, n + 1);
        assert(s.take(n + 1).drop_last() =~= s.take(n));
    }
}

/// Reads a port number.
pub fn parse_port(text: &str) -> (port: Option<u16>)
    ensures
        port == port_of(text@),
{
    let chars = chars_of(text);
    let start: usize = if chars.len() > 0 && chars[0] == '+' {
        1
    } else {
        0
    };
    let ghost digits = unsigned_digits(text@);
    if start == chars.len() {
        return None;
    }
    let mut value: u32 = 0;
    let mut i: usize = start;
    proof {
        assert(digits.take(0) =~= Seq::<char>::empty());
    }
    while i < chars.len()
        invariant
            chars@ == text@,
            digits == unsigned_digits(text@),
            start <= i <= chars@.len(),
            digits.len() == chars@.len() - start,
            forall|j: int| 0 <= j < digits.len() ==> digits[j] == chars@[j + start],
            forall|j: int| 0 <= j < i - start ==> digit_value(#[trigger] digits[j]) is Some,
            value == digits_value(digits.take(i - start)),
            value <= u16::MAX,
        decreases chars@.len() - i,
    {
        let ghost k = i - start;
        proof {
            assert(digits.take(k + 1).drop_last() =~= digits.take(k));
            assert(digits.take(k + 1).last() == chars@[i as int]);
        }
        match digit_of(chars[i]) {
            None => {
                assert(digit_value(digits[k]) is None);
                return None;
            },
            Some(d) => {
                let next = value * 10 + d;
                if next > 65535 {
                    proof {
                        lemma_digits_value_grows(digits, k + 1);
                    }
                    return None;
                }
                value = next;
            },
        }
        i += 1;
    }
    proof {
        assert(digits.take(i - start) =~= digits);
    }
    Some(value as u16)
}

/// The port of the mail server: the default where `raw` is none, else the
/// port that the configured text writes; none where it writes no port.
pub fn get_imap_port(raw: Option<&str>) -> (port: Option<u16>)
    ensures
        port == configured_port(
            match raw {
                Some(text) => Some(text@),
                None => None,
            },
        ),
{
    match raw {
        None => Some(DEFAULT_IMAP_PORT),
        Some(text) => parse_port(text),
    }
}

/// The account names that count as general, out of their configured form:
/// a list with commas between the names.
pub fn get_general_mail(raw: &str) -> (names: Vec<String>)
    ensures
        texts(names@) == split(raw@, ','),
{
    split_text(raw, ',')
}

/// The recipient pattern texts, out of their configured form: a list with
/// commas between the patterns.
pub fn get_mail_regex(raw: &str) -> (sources: Vec<String>)
    ensures
        texts(sources@) == split(raw@, ','),
{
    split_text(raw, ',')
}

} // verus!

//! Parsing of colours written as six hexadecimal digits.
//!
//! The accepted text is an optional `#` followed by exactly six hexadecimal
//! digits of either case, read as red, green and blue. White space around it
//! is ignored; anything else is no colour.

use vstd::prelude::*;
use crate::color::Rgb;
use crate::trim::{chars_of, trimmed, trimmed_range};

verus! {

/// The value of a hexadecimal digit, if `c` is one.
pub open spec fn digit_value(c: char) -> Option<u8> {
    if '0' <= c <= '9' {
        Some((c as u32 - '0' as u32) as u8)
    } else if 'a' <= c <= 'f' {
        Some((c as u32 - 'a' as u32 + 10) as u8)
    } else if 'A' <= c <= 'F' {
        Some((c as u32 - 'A' as u32 + 10) as u8)
    } else {
        None
    }
}

/// `s` without one leading `#`.
pub open spec fn without_hash(s: Seq<char>) -> Seq<char> {
    if s.len() > 0 && s.first() == '#' {
        s.drop_first()
    } else {
        s
    }
}

/// Whether `s` is six hexadecimal digits and nothing else.
pub open spec fn is_six_digits(s: Seq<char>) -> bool {
    s.len() == 6 && forall|i: int| 0 <= i < 6 ==> digit_value(#[trigger] s[i]) is Some
}

/// The byte written by the two digits at `2 * k` and `2 * k + 1`.
pub open spec fn channel_value(s: Seq<char>, k: int) -> u8 {
    (16 * digit_value(s[2 * k])->0 + digit_value(s[2 * k + 1])->0) as u8
}

/// The colour that the text `s` denotes, white space not allowed.
pub open spec fn hex_color(s: Seq<char>) -> Option<Rgb> {
    let digits = without_hash(s);
    if is_six_digits(digits) {
        Some(
            Rgb {
                red: channel_value(digits, 0),
                green: channel_value(digits, 1),
                blue: channel_value(digits, 2),
            },
        )
    } else {
        None
    }
}

/// The value of one hexadecimal digit.
pub fn hex_digit(c: char) -> (value: Option<u8>)
    ensures
        value == digit_value(c),
        value matches Some(v) ==> v < 16,
{
    if '0' <= c && c <= '9' {
        Some((c as u32 - '0' as u32) as u8)
    } else if 'a' <= c && c <= 'f' {
        Some((c as u32 - 'a' as u32 + 10) as u8)
    } else if 'A' <= c && c <= 'F' {
        Some((c as u32 - 'A' as u32 + 10) as u8)
    } else {
        None
    }
}

/// Reads the two digits of channel `k` of the six digits that start at `from`.
fn read_channel(chars: &Vec<char>, from: usize, k: usize) -> (value: Option<u8>)
    requires
        k < 3,
        from + 6 <= chars.len(),
    ensures
        value is Some <==> digit_value(chars[from + 2 * k]) is Some && digit_value(
            chars[from + 2 * k + 1],
        ) is Some,
        value matches Some(v) ==> v == channel_value(
            chars@.subrange(from as int, from + 6),
            k as int,
        ),
{
    let high = hex_digit(chars[from + 2 * k]);
    let low = hex_digit(chars[from + 2 * k + 1]);
    match (high, low) {
        (Some(h), Some(l)) => Some(16 * h + l),
        _ => None,
    }
}

/// Reads a colour from `text`.
///
/// White space at both ends is ignored. What is left must be an optional
/// `#` and exactly six hexadecimal digits; the result is `None` for any
/// other text, the empty one included.
pub fn parse_hex_color(text: &str) -> (color: Option<Rgb>)
    ensures
        color == hex_color(trimmed(text@)),
{
    let chars = chars_of(text);
    let (start, end) = trimmed_range(&chars);
    let from: usize = if start < end && chars[start] == '#' {
        start + 1
    } else {
        start
    };
    let ghost digits = without_hash(chars@.subrange(start as int, end as int));
    if end - from != 6 {
        return None;
    }
    assert forall|i: int| 0 <= i < 6 implies #[trigger] digits[i] == chars[from + i] by {}
    let red = read_channel(&chars, from, 0);
    let green = read_channel(&chars, from, 1);
    let blue = read_channel(&chars, from, 2);
    match (red, green, blue) {
        (Some(r), Some(g), Some(b)) => Some(Rgb { red: r, green: g, blue: b }),
        _ => None,
    }
}

} // verus!

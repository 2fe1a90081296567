//! The text shown for a colour group: its colour in hexadecimal, a swatch
//! and the first positions of the group.

use vstd::prelude::*;
use vstd::string::StringExecFns;
use crate::color::Pixel;

verus! {

/// `String::push` appends one character.
pub assume_specification[ String::push ](text: &mut String, ch: char)
    ensures
        final(text)@ == old(text)@.push(ch),
;

/// The digit that stands for `value` in bases up to sixteen, in lower case.
pub open spec fn digit_char(value: int) -> char {
    if value < 10 {
        ('0' as u32 + value) as char
    } else {
        ('a' as u32 + value - 10) as char
    }
}

/// A byte as two hexadecimal digits.
pub open spec fn hex_pair(value: u8) -> Seq<char> {
    seq![digit_char(value as int / 16), digit_char(value as int % 16)]
}

/// A colour as `#` and six hexadecimal digits, its alpha left out.
pub open spec fn hex_code(color: Pixel) -> Seq<char> {
    seq!['#'] + hex_pair(color.red) + hex_pair(color.green) + hex_pair(color.blue)
}

/// A number in decimal, without leading zeros.
pub open spec fn decimal(value: nat) -> Seq<char>
    decreases value,
{
    if value < 10 {
        seq![digit_char(value as int)]
    } else {
        decimal(value / 10).push(digit_char(value as int % 10))
    }
}

fn digit(value: u8) -> (c: char)
    requires
        value < 16,
    ensures
        c == digit_char(value as int),
{
    // 0x30 is the code of `0`, and 0x61 that of `a`.
    if value < 10 {
        (0x30u8 + value) as char
    } else {
        (0x61u8 + (value - 10)) as char
    }
}

fn push_hex_pair(text: &mut String, value: u8)
    ensures
        final(text)@ == old(text)@ + hex_pair(value),
{
    text.push(digit(value / 16));
    text.push(digit(value % 16));
}

fn push_decimal(text: &mut String, value: u32)
    ensures
        final(text)@ == old(text)@ + decimal(value as nat),
    decreases value,
{
    if value >= 10 {
        push_decimal(text, value / 10);
    }
    text.push(digit((value % 10) as u8));
}

/// Writes a colour as `#` and six hexadecimal digits in lower case.
pub fn hex_string(color: Pixel) -> (text: String)
    ensures
        text@ == hex_code(color),
{
    let mut text = String::new();
    text.push('#');
    push_hex_pair(&mut text, color.red);
    push_hex_pair(&mut text, color.green);
    push_hex_pair(&mut text, color.blue);
    text
}

/// The escape sequence that sets the background of a terminal to a colour.
pub open spec fn background_code(red: u8, green: u8, blue: u8) -> Seq<char> {
    seq!['\u{1b}', '[', '4', '8', ';', '2', ';'] + decimal(red as nat) + seq![';'] + decimal(
        green as nat,
    ) + seq![';'] + decimal(blue as nat) + seq!['m']
}

/// The escape sequence that sets the background back to the default.
pub open spec fn background_reset() -> Seq<char> {
    seq!['\u{1b}', '[', '4', '9', 'm']
}

/// The text of a swatch: four blanks on a background of the colour.
pub open spec fn swatch_text(color: Pixel) -> Seq<char> {
    background_code(color.red, color.green, color.blue) + seq![' ', ' ', ' ', ' ']
        + background_reset()
}

/// One position as `(column, row)`.
pub open spec fn location_text(at: (u32, u32)) -> Seq<char> {
    seq!['('] + decimal(at.0 as nat) + seq![',', ' '] + decimal(at.1 as nat) + seq![')']
}

/// Positions one after the other, with `, ` between them.
pub open spec fn joined_locations(locations: Seq<(u32, u32)>) -> Seq<char>
    decreases locations.len(),
{
    if locations.len() == 0 {
        Seq::empty()
    } else if locations.len() == 1 {
        location_text(locations[0])
    } else {
        joined_locations(locations.drop_last()) + seq![',', ' '] + location_text(locations.last())
    }
}

/// A list of positions in square brackets.
pub open spec fn locations_text(locations: Seq<(u32, u32)>) -> Seq<char> {
    seq!['['] + joined_locations(locations) + seq![']']
}

/// How many positions of a group the preview shows at most.
pub const PREVIEW_LIMIT: usize = 10;

/// The positions that the preview of a group shows: the first ten, or all
/// of them where there are fewer.
pub open spec fn preview_locations(locations: Seq<(u32, u32)>) -> Seq<(u32, u32)> {
    if locations.len() <= PREVIEW_LIMIT {
        locations
    } else {
        locations.take(PREVIEW_LIMIT as int)
    }
}

/// The line that presents a colour group.
pub open spec fn preview_text(color: Pixel, locations: Seq<(u32, u32)>) -> Seq<char> {
    "Color: "@ + hex_code(color) + seq![' '] + swatch_text(color) + " at locations: "@
        + locations_text(preview_locations(locations)) + "..."@
}

/// `OwoColorize::on_truecolor`, formatted with `{}`: the text between the
/// escape sequence that sets the background to the colour, its channels
/// written in decimal, and the one that resets the background.
#[verifier::external_body]
fn on_truecolor(text: &str, red: u8, green: u8, blue: u8) -> (painted: String)
    ensures
        painted@ == background_code(red, green, blue) + text@ + background_reset(),
{
    format!("{}", owo_colors::OwoColorize::on_truecolor(&text, red, green, blue))
}

/// A swatch of the colour for a terminal: four blanks on that background.
pub fn swatch(color: Pixel) -> (text: String)
    ensures
        text@ == swatch_text(color),
{
    proof {
        reveal_strlit("    ");
    }
    on_truecolor("    ", color.red, color.green, color.blue)
}

fn push_location(text: &mut String, at: (u32, u32))
    ensures
        final(text)@ == old(text)@ + location_text(at),
{
    text.push('(');
    push_decimal(text, at.0);
    text.push(',');
    text.push(' ');
    push_decimal(text, at.1);
    text.push(')');
}

/// Writes the first `count` positions as a list in square brackets.
fn push_locations(text: &mut String, locations: &Vec<(u32, u32)>, count: usize)
    requires
        count <= locations.len(),
    ensures
        final(text)@ == old(text)@ + locations_text(locations@.take(count as int)),
{
    text.push('[');
    for i in 0..count
        invariant
            count <= locations.len(),
            text@ == old(text)@ + seq!['['] + joined_locations(locations@.take(i as int)),
    {
        let ghost shown = locations@.take(i + 1);
        assert(shown.drop_last() == locations@.take(i as int));
        if i > 0 {
            text.push(',');
            text.push(' ');
        }
        push_location(text, locations[i]);
    }
    text.push(']');
}

/// The line that presents a colour group: the colour in hexadecimal, a
/// swatch of it and the first positions of the group, ten at most.
pub fn preview_line(color: Pixel, locations: &Vec<(u32, u32)>) -> (text: String)
    ensures
        text@ == preview_text(color, locations@),
{
    let count = if locations.len() <= PREVIEW_LIMIT {
        locations.len()
    } else {
        PREVIEW_LIMIT
    };
    assert(locations@.take(count as int) == preview_locations(locations@));
    let mut text = String::new();
    text.append("Color: ");
    text.append(hex_string(color).as_str());
    text.push(' ');
    text.append(swatch(color).as_str());
    text.append(" at locations: ");
    push_locations(&mut text, locations, count);
    text.append("...");
    text
}

} // verus!

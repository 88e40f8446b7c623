//! Terminal colors and the escape sequences that select them.

use vstd::prelude::*;
use vstd::string::*;

use crate::number;
use crate::number::{decimal, parse_hex_byte};
use crate::text::chars_of;

verus! {

/// One of the sixteen colors that a terminal's palette names.
#[derive(Clone, Copy, Debug, PartialEq, Eq, Structural)]
pub enum AnsiColor {
    Black,
    Red,
    Green,
    Yellow,
    Blue,
    Magenta,
    Cyan,
    White,
    BrightBlack,
    BrightRed,
    BrightGreen,
    BrightYellow,
    BrightBlue,
    BrightMagenta,
    BrightCyan,
    BrightWhite,
}

/// A color of a text.
#[derive(Clone, Copy, Debug, PartialEq, Eq, Structural)]
pub enum Color {
    Ansi(AnsiColor),
    Ansi256(u8),
    Rgb(u8, u8, u8),
}

/// The code that selects a named color for the text itself.
pub open spec fn fg_code(c: AnsiColor) -> nat {
    match c {
        AnsiColor::Black => 30,
        AnsiColor::Red => 31,
        AnsiColor::Green => 32,
        AnsiColor::Yellow => 33,
        AnsiColor::Blue => 34,
        AnsiColor::Magenta => 35,
        AnsiColor::Cyan => 36,
        AnsiColor::White => 37,
        AnsiColor::BrightBlack => 90,
        AnsiColor::BrightRed => 91,
        AnsiColor::BrightGreen => 92,
        AnsiColor::BrightYellow => 93,
        AnsiColor::BrightBlue => 94,
        AnsiColor::BrightMagenta => 95,
        AnsiColor::BrightCyan => 96,
        AnsiColor::BrightWhite => 97,
    }
}

/// The sequence that sets a direct color: `lead`, the three components, and the closing letter.
pub open spec fn rgb_escape(lead: Seq<char>, r: u8, g: u8, b: u8) -> Seq<char> {
    lead + number::numeral(r as nat) + ";"@ + number::numeral(g as nat) + ";"@
        + number::numeral(b as nat) + "m"@
}

/// The sequence that carries one number: `lead`, the number, and the closing letter.
pub open spec fn code_escape(lead: Seq<char>, n: nat) -> Seq<char> {
    lead + number::numeral(n) + "m"@
}

/// The escape sequence that selects `color` for the text itself; without a color, the default.
pub open spec fn ansi_fg(color: Option<Color>) -> Seq<char> {
    match color {
        Some(Color::Rgb(r, g, b)) => rgb_escape("\x1b[38;2;"@, r, g, b),
        Some(Color::Ansi(c)) => code_escape("\x1b["@, fg_code(c)),
        Some(Color::Ansi256(n)) => code_escape("\x1b[38;5;"@, n as nat),
        None => "\x1b[39m"@,
    }
}

/// The escape sequence that selects `color` for what lies behind the text.
pub open spec fn ansi_bg(color: Color) -> Seq<char> {
    match color {
        Color::Rgb(r, g, b) => rgb_escape("\x1b[48;2;"@, r, g, b),
        Color::Ansi(c) => code_escape("\x1b["@, fg_code(c) + 10),
        Color::Ansi256(n) => code_escape("\x1b[48;5;"@, n as nat),
    }
}

fn foreground_code(c: AnsiColor) -> (r: u8)
    ensures
        r == fg_code(c),
{
    match c {
        AnsiColor::Black => 30,
        AnsiColor::Red => 31,
        AnsiColor::Green => 32,
        AnsiColor::Yellow => 33,
        AnsiColor::Blue => 34,
        AnsiColor::Magenta => 35,
        AnsiColor::Cyan => 36,
        AnsiColor::White => 37,
        AnsiColor::BrightBlack => 90,
        AnsiColor::BrightRed => 91,
        AnsiColor::BrightGreen => 92,
        AnsiColor::BrightYellow => 93,
        AnsiColor::BrightBlue => 94,
        AnsiColor::BrightMagenta => 95,
        AnsiColor::BrightCyan => 96,
        AnsiColor::BrightWhite => 97,
    }
}

/// The sequence that sets a direct color.
pub fn rgb_sequence(lead: &str, r: u8, g: u8, b: u8) -> (out: String)
    ensures
        out@ == rgb_escape(lead@, r, g, b),
{
    let mut out = lead.to_owned();
    out.append(decimal(r as u128).as_str());
    out.append(";");
    out.append(decimal(g as u128).as_str());
    out.append(";");
    out.append(decimal(b as u128).as_str());
    out.append("m");
    out
}

fn code_sequence(lead: &str, n: u8) -> (out: String)
    ensures
        out@ == code_escape(lead@, n as nat),
{
    let mut out = lead.to_owned();
    out.append(decimal(n as u128).as_str());
    out.append("m");
    out
}

/// The escape sequence that selects `color` for the text itself; without a color, the default.
pub fn color_to_ansi_fg(color: Option<Color>) -> (out: String)
    ensures
        out@ == ansi_fg(color),
{
    match color {
        Some(Color::Rgb(r, g, b)) => rgb_sequence("\x1b[38;2;", r, g, b),
        Some(Color::Ansi(c)) => code_sequence("\x1b[", foreground_code(c)),
        Some(Color::Ansi256(n)) => code_sequence("\x1b[38;5;", n),
        None => "\x1b[39m".to_owned(),
    }
}

/// The escape sequence that selects `color` for what lies behind the text.
pub fn color_to_ansi_bg(color: Color) -> (out: String)
    ensures
        out@ == ansi_bg(color),
{
    match color {
        Color::Rgb(r, g, b) => rgb_sequence("\x1b[48;2;", r, g, b),
        Color::Ansi(c) => code_sequence("\x1b[", foreground_code(c) + 10),
        Color::Ansi256(n) => code_sequence("\x1b[48;5;", n),
    }
}

/// The three bytes that six characters stand for, two characters each.
pub open spec fn rgb_of(hex: Seq<char>) -> Option<(nat, nat, nat)> {
    if hex.len() == 6 {
        match (
            number::hex_byte(hex[0], hex[1]),
            number::hex_byte(hex[2], hex[3]),
            number::hex_byte(hex[4], hex[5]),
        ) {
            (Some(r), Some(g), Some(b)) => Some((r, g, b)),
            _ => None,
        }
    } else {
        None
    }
}

/// Reads a color that is written as three pairs of hexadecimal digits.
///
/// A pair may also be a plus sign and one digit. Anything else is an error, text with characters
/// outside ASCII included.
pub fn hex_to_rgb(hex: &str) -> (out: Result<(u8, u8, u8), ()>)
    ensures
        match out {
            Ok(rgb) => rgb_of(hex@) == Some((rgb.0 as nat, rgb.1 as nat, rgb.2 as nat)),
            Err(_) => rgb_of(hex@) is None,
        },
{
    let h = chars_of(hex);
    if h.len() != 6 {
        return Err(());
    }
    match (parse_hex_byte(h[0], h[1]), parse_hex_byte(h[2], h[3]), parse_hex_byte(h[4], h[5])) {
        (Some(r), Some(g), Some(b)) => Ok((r, g, b)),
        _ => Err(()),
    }
}

} // verus!

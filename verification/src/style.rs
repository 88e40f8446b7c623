//! Styled pieces of text, and the format strings that they are written in.
//!
//! A format string is plain text with styles in it: `#[fg=#ff0000,bg=blue,bold]text`. A style
//! holds until the next one. A color is a name, a number of the palette, three pairs of
//! hexadecimal digits after `#`, or `$` and the name of a color that the configuration defines
//! under `color_` and that name.

use vstd::prelude::*;
use vstd::string::*;

use crate::color;
use crate::color::{color_to_ansi_bg, color_to_ansi_fg, hex_to_rgb, AnsiColor, Color};
use crate::number;
use crate::text;
use crate::text_map::TextMap;

verus! {

/// How a text stands out besides its colors.
#[derive(Clone, Copy, Debug, PartialEq, Eq, Structural)]
pub enum Effect {
    Bold,
    Dimmed,
    Italic,
    Underscore,
    Blink,
    Reverse,
    Hidden,
    Strikethrough,
}

/// A text with one style.
#[derive(Debug, PartialEq, Eq)]
pub struct FormattedPart {
    pub fg: Option<Color>,
    pub bg: Option<Color>,
    pub effects: Vec<Effect>,
    pub content: String,
}

/// What a [`FormattedPart`] holds.
#[verifier::ext_equal]
pub struct PartView {
    pub fg: Option<Color>,
    pub bg: Option<Color>,
    pub effects: Seq<Effect>,
    pub content: Seq<char>,
}

impl View for FormattedPart {
    type V = PartView;

    open spec fn view(&self) -> PartView {
        PartView { fg: self.fg, bg: self.bg, effects: self.effects@, content: self.content@ }
    }
}

/// The views of a list of parts.
pub open spec fn views(parts: Seq<FormattedPart>) -> Seq<PartView> {
    parts.map_values(|p: FormattedPart| p@)
}

/// The sequence that switches an effect on.
pub open spec fn effect_escape(e: Effect) -> Seq<char> {
    match e {
        Effect::Bold => "\x1b[1m"@,
        Effect::Dimmed => "\x1b[2m"@,
        Effect::Italic => "\x1b[3m"@,
        Effect::Underscore => "\x1b[4m"@,
        Effect::Blink => "\x1b[5m"@,
        Effect::Reverse => "\x1b[7m"@,
        Effect::Hidden => "\x1b[8m"@,
        Effect::Strikethrough => "\x1b[9m"@,
    }
}

/// The sequences that switch a list of effects on.
pub open spec fn effect_escapes(effects: Seq<Effect>) -> Seq<char>
    decreases effects.len(),
{
    if effects.len() == 0 {
        Seq::empty()
    } else {
        effect_escapes(effects.drop_last()) + effect_escape(effects.last())
    }
}

impl PartView {
    /// The sequences that switch the style on.
    pub open spec fn opening(self) -> Seq<char> {
        effect_escapes(self.effects) + (match self.fg {
            Some(c) => color::ansi_fg(Some(c)),
            None => Seq::empty(),
        }) + (match self.bg {
            Some(c) => color::ansi_bg(c),
            None => Seq::empty(),
        })
    }

    /// `text` in this style. Where there is no style, the text alone.
    pub open spec fn formatted(self, text: Seq<char>) -> Seq<char> {
        if self.opening().len() == 0 {
            text
        } else {
            self.opening() + text + "\x1b[0m"@
        }
    }
}

/// The color that a name stands for.
pub open spec fn named_color(name: Seq<char>) -> Option<AnsiColor> {
    if name == "black"@ {
        Some(AnsiColor::Black)
    } else if name == "red"@ {
        Some(AnsiColor::Red)
    } else if name == "green"@ {
        Some(AnsiColor::Green)
    } else if name == "yellow"@ {
        Some(AnsiColor::Yellow)
    } else if name == "blue"@ {
        Some(AnsiColor::Blue)
    } else if name == "magenta"@ {
        Some(AnsiColor::Magenta)
    } else if name == "cyan"@ {
        Some(AnsiColor::Cyan)
    } else if name == "white"@ {
        Some(AnsiColor::White)
    } else if name == "bright_black"@ {
        Some(AnsiColor::BrightBlack)
    } else if name == "bright_red"@ {
        Some(AnsiColor::BrightRed)
    } else if name == "bright_green"@ {
        Some(AnsiColor::BrightGreen)
    } else if name == "bright_yellow"@ {
        Some(AnsiColor::BrightYellow)
    } else if name == "bright_blue"@ {
        Some(AnsiColor::BrightBlue)
    } else if name == "bright_magenta"@ {
        Some(AnsiColor::BrightMagenta)
    } else if name == "bright_cyan"@ {
        Some(AnsiColor::BrightCyan)
    } else if name == "bright_white"@ {
        Some(AnsiColor::BrightWhite)
    } else {
        None
    }
}

/// The color that `s` stands for, where it is not one that the configuration defines.
pub open spec fn plain_color(s: Seq<char>) -> Option<Color> {
    match text::stripped(s, "#"@) {
        Some(hex) => match color::rgb_of(hex) {
            Some(rgb) => Some(Color::Rgb(rgb.0 as u8, rgb.1 as u8, rgb.2 as u8)),
            None => None,
        },
        None => match named_color(s) {
            Some(c) => Some(Color::Ansi(c)),
            None => match number::parsed(s, 255) {
                Some(n) => Some(Color::Ansi256(n as u8)),
                None => None,
            },
        },
    }
}

/// The color that `s` stands for under the configuration `config`.
pub open spec fn color_of(s: Seq<char>, config: Map<Seq<char>, String>) -> Option<Color> {
    match text::stripped(s, "$"@) {
        Some(alias) => if config.contains_key("color_"@ + alias) {
            plain_color(config["color_"@ + alias]@)
        } else {
            None
        },
        None => plain_color(s),
    }
}

/// The effect that a word of a style stands for.
pub open spec fn effect_of(word: Seq<char>) -> Option<Effect> {
    if word == "bold"@ {
        Some(Effect::Bold)
    } else if word == "dim"@ {
        Some(Effect::Dimmed)
    } else if word == "italic"@ {
        Some(Effect::Italic)
    } else if word == "underscore"@ {
        Some(Effect::Underscore)
    } else if word == "blink"@ {
        Some(Effect::Blink)
    } else if word == "reverse"@ {
        Some(Effect::Reverse)
    } else if word == "hidden"@ {
        Some(Effect::Hidden)
    } else if word == "strikethrough"@ {
        Some(Effect::Strikethrough)
    } else {
        None
    }
}

/// `part` after one more word of its style. A word that says nothing is passed over.
pub open spec fn styled(part: PartView, word: Seq<char>, config: Map<Seq<char>, String>) -> PartView {
    match text::stripped(word, "fg="@) {
        Some(c) => PartView { fg: color_of(c, config), ..part },
        None => match text::stripped(word, "bg="@) {
            Some(c) => PartView { bg: color_of(c, config), ..part },
            None => match effect_of(word) {
                Some(e) => PartView { effects: part.effects.push(e), ..part },
                None => part,
            },
        },
    }
}

/// `part` after the words of its style.
pub open spec fn styled_by(
    part: PartView,
    words: Seq<Seq<char>>,
    config: Map<Seq<char>, String>,
) -> PartView
    decreases words.len(),
{
    if words.len() == 0 {
        part
    } else {
        styled(styled_by(part, words.drop_last(), config), words.last(), config)
    }
}

/// `content` without a style.
pub open spec fn unstyled(content: Seq<char>) -> PartView {
    PartView { fg: None, bg: None, effects: Seq::empty(), content }
}

/// The part that one style and the text behind it stand for; text without a style stands for
/// itself.
pub open spec fn part_of(format: Seq<char>, config: Map<Seq<char>, String>) -> PartView {
    let inner = match text::stripped(format, "#["@) {
        Some(s) => s,
        None => format,
    };
    match text::find_from(inner, "]"@, 0) {
        Some(end) => styled_by(
            unstyled(text::rest(inner, end + 1)),
            text::pieces(inner.subrange(0, end), ","@),
            config,
        ),
        None => unstyled(inner),
    }
}

/// The parts that a format string stands for.
pub open spec fn parts_of(format: Seq<char>, config: Map<Seq<char>, String>) -> Seq<PartView> {
    text::pieces(format, "#["@).map_values(|piece: Seq<char>| part_of(piece, config))
}

fn effect_sequence(e: Effect) -> (r: &'static str)
    ensures
        r@ == effect_escape(e),
{
    match e {
        Effect::Bold => "\x1b[1m",
        Effect::Dimmed => "\x1b[2m",
        Effect::Italic => "\x1b[3m",
        Effect::Underscore => "\x1b[4m",
        Effect::Blink => "\x1b[5m",
        Effect::Reverse => "\x1b[7m",
        Effect::Hidden => "\x1b[8m",
        Effect::Strikethrough => "\x1b[9m",
    }
}

fn parse_name(name: &str) -> (r: Option<AnsiColor>)
    ensures
        r == named_color(name@),
{
    if text::same(name, "black") {
        Some(AnsiColor::Black)
    } else if text::same(name, "red") {
        Some(AnsiColor::Red)
    } else if text::same(name, "green") {
        Some(AnsiColor::Green)
    } else if text::same(name, "yellow") {
        Some(AnsiColor::Yellow)
    } else if text::same(name, "blue") {
        Some(AnsiColor::Blue)
    } else if text::same(name, "magenta") {
        Some(AnsiColor::Magenta)
    } else if text::same(name, "cyan") {
        Some(AnsiColor::Cyan)
    } else if text::same(name, "white") {
        Some(AnsiColor::White)
    } else if text::same(name, "bright_black") {
        Some(AnsiColor::BrightBlack)
    } else if text::same(name, "bright_red") {
        Some(AnsiColor::BrightRed)
    } else if text::same(name, "bright_green") {
        Some(AnsiColor::BrightGreen)
    } else if text::same(name, "bright_yellow") {
        Some(AnsiColor::BrightYellow)
    } else if text::same(name, "bright_blue") {
        Some(AnsiColor::BrightBlue)
    } else if text::same(name, "bright_magenta") {
        Some(AnsiColor::BrightMagenta)
    } else if text::same(name, "bright_cyan") {
        Some(AnsiColor::BrightCyan)
    } else if text::same(name, "bright_white") {
        Some(AnsiColor::BrightWhite)
    } else {
        None
    }
}

fn parse_plain_color(s: &str) -> (r: Option<Color>)
    ensures
        r == plain_color(s@),
{
    match text::strip_prefix(s, "#") {
        Some(hex) => match hex_to_rgb(hex.as_str()) {
            Ok(rgb) => Some(Color::Rgb(rgb.0, rgb.1, rgb.2)),
            Err(_) => None,
        },
        None => match parse_name(s) {
            Some(c) => Some(Color::Ansi(c)),
            None => match number::parse(s, 255) {
                Some(n) => Some(Color::Ansi256(n as u8)),
                None => None,
            },
        },
    }
}

fn parse_color(s: &str, config: &TextMap<String>) -> (r: Option<Color>)
    ensures
        r == color_of(s@, config@),
{
    match text::strip_prefix(s, "$") {
        Some(alias) => {
            let key = text::concat("color_", alias.as_str());
            match config.get(key.as_str()) {
                Some(value) => parse_plain_color(value.as_str()),
                None => None,
            }
        },
        None => parse_plain_color(s),
    }
}

fn parse_effect(word: &str) -> (r: Option<Effect>)
    ensures
        r == effect_of(word@),
{
    if text::same(word, "bold") {
        Some(Effect::Bold)
    } else if text::same(word, "dim") {
        Some(Effect::Dimmed)
    } else if text::same(word, "italic") {
        Some(Effect::Italic)
    } else if text::same(word, "underscore") {
        Some(Effect::Underscore)
    } else if text::same(word, "blink") {
        Some(Effect::Blink)
    } else if text::same(word, "reverse") {
        Some(Effect::Reverse)
    } else if text::same(word, "hidden") {
        Some(Effect::Hidden)
    } else if text::same(word, "strikethrough") {
        Some(Effect::Strikethrough)
    } else {
        None
    }
}

impl Clone for FormattedPart {
    fn clone(&self) -> (r: Self)
        ensures
            r@ == self@,
    {
        let mut effects: Vec<Effect> = Vec::new();
        let mut i: usize = 0;
        while i < self.effects.len()
            invariant
                i <= self.effects@.len(),
                effects@ == self.effects@.take(i as int),
            decreases self.effects@.len() - i,
        {
            effects.push(self.effects[i]);
            i = i + 1;
        }
        assert(effects@ =~= self.effects@);
        FormattedPart { fg: self.fg, bg: self.bg, effects, content: self.content.clone() }
    }
}

/// A copy of `parts`.
pub fn copy_parts(parts: &Vec<FormattedPart>) -> (r: Vec<FormattedPart>)
    ensures
        views(r@) == views(parts@),
{
    let mut r: Vec<FormattedPart> = Vec::new();
    let mut i: usize = 0;
    while i < parts.len()
        invariant
            i <= parts@.len(),
            views(r@) == views(parts@).take(i as int),
        decreases parts@.len() - i,
    {
        let ghost before = r@;
        r.push(parts[i].clone());
        assert(views(r@) =~= views(before).push(parts@[i as int]@));
        i = i + 1;
    }
    assert(views(r@) =~= views(parts@));
    r
}

impl FormattedPart {
    /// The part that one style and the text behind it stand for.
    pub fn from_format_string(format: &str, config: &TextMap<String>) -> (r: FormattedPart)
        ensures
            r@ == part_of(format@, config@),
    {
        let inner = match text::strip_prefix(format, "#[") {
            Some(s) => s,
            None => format.to_owned(),
        };
        let chars = text::chars_of(inner.as_str());
        let bracket = text::chars_of("]");
        proof {
            reveal_strlit("]");
            reveal_strlit(",");
        }
        match text::find(&chars, &bracket, 0) {
            Some(end) => {
                let mut part = FormattedPart {
                    fg: None,
                    bg: None,
                    effects: Vec::new(),
                    content: text::text_between(&chars, end + 1, chars.len()),
                };
                let style = text::text_between(&chars, 0, end);
                let words = text::split(style.as_str(), ",");
                let ghost start = part@;
                let ghost all = words@.map_values(|w: String| w@);
                assert(start =~= unstyled(text::rest(inner@, end + 1)));
                let mut i: usize = 0;
                while i < words.len()
                    invariant
                        i <= words@.len(),
                        all == words@.map_values(|w: String| w@),
                        part@ == styled_by(start, all.take(i as int), config@),
                    decreases words@.len() - i,
                {
                    let word = words[i].as_str();
                    let ghost before = part@;
                    assert(all.take(i + 1).drop_last() =~= all.take(i as int));
                    match text::strip_prefix(word, "fg=") {
                        Some(c) => {
                            part.fg = parse_color(c.as_str(), config);
                        },
                        None => match text::strip_prefix(word, "bg=") {
                            Some(c) => {
                                part.bg = parse_color(c.as_str(), config);
                            },
                            None => match parse_effect(word) {
                                Some(e) => {
                                    part.effects.push(e);
                                },
                                None => {},
                            },
                        },
                    }
                    assert(part@ =~= styled(before, word@, config@));
                    i = i + 1;
                }
                assert(all.take(i as int) =~= all);
                part
            },
            None => {
                let part = FormattedPart { fg: None, bg: None, effects: Vec::new(), content: inner };
                assert(part@ =~= unstyled(inner@));
                part
            },
        }
    }

    /// The parts that a format string stands for.
    pub fn multiple_from_format_string(format: &str, config: &TextMap<String>) -> (r: Vec<
        FormattedPart,
    >)
        ensures
            views(r@) == parts_of(format@, config@),
    {
        proof {
            reveal_strlit("#[");
        }
        let pieces = text::split(format, "#[");
        let ghost all = pieces@.map_values(|p: String| p@);
        let mut r: Vec<FormattedPart> = Vec::new();
        let mut i: usize = 0;
        while i < pieces.len()
            invariant
                i <= pieces@.len(),
                all == pieces@.map_values(|p: String| p@),
                all == text::pieces(format@, "#["@),
                views(r@) == parts_of(format@, config@).take(i as int),
            decreases pieces@.len() - i,
        {
            let ghost before = r@;
            r.push(FormattedPart::from_format_string(pieces[i].as_str(), config));
            assert(all[i as int] == pieces@[i as int]@);
            assert(views(r@) =~= views(before).push(part_of(all[i as int], config@)));
            i = i + 1;
        }
        assert(views(r@) =~= parts_of(format@, config@));
        r
    }

    fn opening(&self) -> (r: String)
        ensures
            r@ == self@.opening(),
    {
        let mut out = String::new();
        let mut i: usize = 0;
        while i < self.effects.len()
            invariant
                i <= self.effects@.len(),
                out@ == effect_escapes(self.effects@.take(i as int)),
            decreases self.effects@.len() - i,
        {
            out.append(effect_sequence(self.effects[i]));
            assert(self.effects@.take(i + 1).drop_last() =~= self.effects@.take(i as int));
            i = i + 1;
        }
        assert(self.effects@.take(i as int) =~= self.effects@);
        match self.fg {
            Some(c) => {
                out.append(color_to_ansi_fg(Some(c)).as_str());
            },
            None => {},
        }
        match self.bg {
            Some(c) => {
                out.append(color_to_ansi_bg(c).as_str());
            },
            None => {},
        }
        assert(out@ =~= self@.opening());
        out
    }

    /// `text` in the style of this part.
    pub fn format_string(&self, text: &str) -> (r: String)
        ensures
            r@ == self@.formatted(text@),
    {
        let opening = self.opening();
        if opening.as_str().is_empty() {
            text.to_owned()
        } else {
            let mut out = opening;
            out.append(text);
            out.append("\x1b[0m");
            out
        }
    }
}

} // verus!

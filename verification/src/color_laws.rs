//! What holds of colors and styles, whatever text they are given to.

use vstd::prelude::*;

use crate::color;
use crate::color::{AnsiColor, Color};
use crate::name_color;
use crate::number;
use crate::style;
use crate::style::{Effect, PartView};
use crate::text;
use crate::text_laws;

verus! {

/// The place of a color among the eight that a terminal has names for.
pub open spec fn place(c: AnsiColor) -> nat {
    match c {
        AnsiColor::Black | AnsiColor::BrightBlack => 0,
        AnsiColor::Red | AnsiColor::BrightRed => 1,
        AnsiColor::Green | AnsiColor::BrightGreen => 2,
        AnsiColor::Yellow | AnsiColor::BrightYellow => 3,
        AnsiColor::Blue | AnsiColor::BrightBlue => 4,
        AnsiColor::Magenta | AnsiColor::BrightMagenta => 5,
        AnsiColor::Cyan | AnsiColor::BrightCyan => 6,
        AnsiColor::White | AnsiColor::BrightWhite => 7,
    }
}

/// Whether a color is one of the eight bright ones.
pub open spec fn is_bright(c: AnsiColor) -> bool {
    match c {
        AnsiColor::BrightBlack
        | AnsiColor::BrightRed
        | AnsiColor::BrightGreen
        | AnsiColor::BrightYellow
        | AnsiColor::BrightBlue
        | AnsiColor::BrightMagenta
        | AnsiColor::BrightCyan
        | AnsiColor::BrightWhite => true,
        _ => false,
    }
}

/// The sequences that terminals know for colors: the eight named ones count from 30 for the text
/// and from 40 for what is behind it, the bright ones from 90 and from 100; the others are given by
/// their number or by their three components. Without a color, the text goes back to the default.
pub proof fn law_color_sequences(c: AnsiColor, n: u8, r: u8, g: u8, b: u8)
    ensures
        color::ansi_fg(Some(Color::Ansi(c))) == "\x1b["@ + number::numeral(
            (if is_bright(c) {
                90nat
            } else {
                30nat
            }) + place(c),
        ) + "m"@,
        color::ansi_bg(Color::Ansi(c)) == "\x1b["@ + number::numeral(
            (if is_bright(c) {
                100nat
            } else {
                40nat
            }) + place(c),
        ) + "m"@,
        color::ansi_fg(Some(Color::Ansi256(n))) == "\x1b[38;5;"@ + number::numeral(n as nat) + "m"@,
        color::ansi_bg(Color::Ansi256(n)) == "\x1b[48;5;"@ + number::numeral(n as nat) + "m"@,
        color::ansi_fg(Some(Color::Rgb(r, g, b))) == "\x1b[38;2;"@ + number::numeral(r as nat)
            + ";"@ + number::numeral(g as nat) + ";"@ + number::numeral(b as nat) + "m"@,
        color::ansi_bg(Color::Rgb(r, g, b)) == "\x1b[48;2;"@ + number::numeral(r as nat) + ";"@
            + number::numeral(g as nat) + ";"@ + number::numeral(b as nat) + "m"@,
        color::ansi_fg(None) == "\x1b[39m"@,
{
}

/// Six characters stand for a color where each pair of them stands for a byte: for red, green and
/// blue, in that order. Nothing else does.
pub proof fn law_hexadecimal_colors(hex: Seq<char>)
    ensures
        color::rgb_of(hex) is Some <==> hex.len() == 6 && number::hex_byte(hex[0], hex[1]) is Some
            && number::hex_byte(hex[2], hex[3]) is Some && number::hex_byte(hex[4], hex[5])
            is Some,
        match color::rgb_of(hex) {
            Some((r, g, b)) => {
                &&& number::hex_byte(hex[0], hex[1]) == Some(r)
                &&& number::hex_byte(hex[2], hex[3]) == Some(g)
                &&& number::hex_byte(hex[4], hex[5]) == Some(b)
            },
            None => true,
        },
{
}

/// Behind the last `#[` of a text stands its last piece.
pub proof fn lemma_last_piece(x: Seq<char>, y: Seq<char>)
    requires
        !text::has(y, "#["@),
    ensures
        text::pieces(x + "#["@ + y, "#["@) == text::pieces(x, "#["@).push(y),
        text::pieces(x, "#["@).len() > 0,
    decreases x.len(),
{
    reveal_strlit("#[");
    let pat = "#["@;
    if text::has(x, pat) {
        text::lemma_find_from(x, pat, 0);
        let k = choose|i: int| text::occurs_at(x, pat, i);
        let i = text::find_from(x, pat, 0)->0;
        let a = x.take(i);
        let b = x.skip(i + 2);
        assert(x =~= a + pat + b) by {
            assert(x.subrange(i, i + 2)[0] == x[i]);
            assert(x.subrange(i, i + 2)[1] == x[i + 1]);
        }
        let t = a + pat.drop_last();
        if text::has(t, pat) {
            let j = choose|j: int| text::occurs_at(t, pat, j);
            assert(t.subrange(j, j + 2) =~= x.subrange(j, j + 2));
            assert(text::occurs_at(x, pat, j));
        }
        text_laws::law_splitting(a, pat, b);
        text_laws::law_splitting(a, pat, b + pat + y);
        lemma_last_piece(b, y);
        assert(x + pat + y =~= a + pat + (b + pat + y));
        assert(seq![a] + text::pieces(b, pat).push(y) =~= (seq![a] + text::pieces(b, pat)).push(y));
    } else {
        let t = x + pat.drop_last();
        if text::has(t, pat) {
            let j = choose|j: int| text::occurs_at(t, pat, j);
            assert(t.subrange(j, j + 2)[1] == t[j + 1]);
            assert(t[j + 1] == '[');
            assert(j + 2 <= x.len());
            assert(t.subrange(j, j + 2) =~= x.subrange(j, j + 2));
            assert(text::occurs_at(x, pat, j));
        }
        text_laws::law_splitting(x, pat, y);
        text_laws::law_splitting(y, pat, Seq::empty());
        assert(seq![x] + seq![y] =~= seq![x].push(y));
    }
}

/// Colors inside a name are carried out one after another. Where `attrs` stands between the last
/// `#[` and the `]` behind it, what stands before is shown as before, and what stands behind in the
/// color that `attrs` asks for: `fg=` asks for the color around the name, `fg=#` and six
/// hexadecimal digits ask for that color, and anything else changes nothing. A `#[` that is not
/// closed stands for itself.
pub proof fn law_colors_inside_names(
    before: Seq<char>,
    attrs: Seq<char>,
    behind: Seq<char>,
    hex: Seq<char>,
    around: Option<Color>,
)
    requires
        !text::has(attrs, "]"@),
        !text::has(attrs + "]"@ + behind, "#["@),
    ensures
        ({
            let shown = name_color::colored(before + "#["@ + (attrs + "]"@ + behind), around);
            let first = name_color::colored(before, around);
            &&& attrs == "fg="@ ==> shown == first + color::ansi_fg(around) + behind
            &&& attrs == "fg=#"@ + hex ==> shown == (match color::rgb_of(hex) {
                Some(rgb) => first + color::ansi_fg(
                    Some(Color::Rgb(rgb.0 as u8, rgb.1 as u8, rgb.2 as u8)),
                ) + behind,
                None => first + behind,
            })
            &&& attrs != "fg="@ && (forall|r: Seq<char>| attrs != #[trigger] ("fg=#"@ + r))
                ==> shown == first + behind
        }),
        !text::has(attrs, "#["@) ==> name_color::colored(before + "#["@ + attrs, around)
            == name_color::colored(before, around) + ("#["@ + attrs),
{
    reveal_strlit("fg=");
    reveal_strlit("fg=#");
    reveal_strlit("#");
    reveal_strlit("]");
    let y = attrs + "]"@ + behind;
    let first = name_color::colored(before, around);
    lemma_last_piece(before, y);
    let all = text::pieces(before, "#["@);
    assert(all.push(y).drop_last() =~= all);
    lemma_first_bracket(attrs, behind);
    assert(y.subrange(0, attrs.len() as int) =~= attrs);
    assert(text::rest(y, attrs.len() as int + 1) =~= behind);
    let change = name_color::color_change(attrs, around);
    assert(name_color::colored(before + "#["@ + y, around) == first + (change + behind));
    assert(first + (change + behind) =~= first + change + behind);
    text_laws::law_affixes(attrs, "fg="@, attrs.skip(3));
    if attrs == "fg="@ {
        assert(attrs.skip(3) =~= Seq::empty());
        assert(attrs =~= "fg="@ + attrs.skip(3));
    } else if text::starts(attrs, "fg="@) {
        let c = attrs.skip(3);
        assert(attrs =~= "fg="@ + c);
        text_laws::law_affixes(c, "#"@, c.skip(1));
        if attrs == "fg=#"@ + hex {
            assert(c =~= "#"@ + hex);
            text_laws::law_affixes(c, "#"@, hex);
        }
        if text::starts(c, "#"@) {
            let r = choose|r: Seq<char>| c == #[trigger] ("#"@ + r);
            assert(attrs =~= "fg=#"@ + r);
        }
        assert(change.len() == 0 ==> first + change + behind =~= first + behind);
    } else {
        if attrs == "fg=#"@ + hex {
            assert(attrs =~= "fg="@ + ("#"@ + hex));
            text_laws::law_affixes(attrs, "fg="@, "#"@ + hex);
        }
        assert(first + change + behind =~= first + behind);
    }
    if !text::has(attrs, "#["@) {
        lemma_last_piece(before, attrs);
        assert(all.push(attrs).drop_last() =~= all);
        text::lemma_find_from(attrs, "]"@, 0);
    }
}

/// The first `]` behind attributes that hold none.
pub proof fn lemma_first_bracket(attrs: Seq<char>, behind: Seq<char>)
    requires
        !text::has(attrs, "]"@),
    ensures
        text::find_from(attrs + "]"@ + behind, "]"@, 0) == Some(attrs.len() as int),
{
    reveal_strlit("]");
    let s = attrs + "]"@ + behind;
    text::lemma_find_from(s, "]"@, 0);
    assert(s.subrange(attrs.len() as int, attrs.len() as int + 1) =~= "]"@);
    assert(text::occurs_at(s, "]"@, attrs.len() as int));
    if let Some(i) = text::find_from(s, "]"@, 0) {
        if i < attrs.len() {
            assert(attrs.subrange(i, i + 1) =~= s.subrange(i, i + 1));
            assert(text::occurs_at(attrs, "]"@, i));
        }
    }
}

/// A text in a style stands between the sequences that switch the style on and the one that
/// switches everything off. Without a style, it stands alone.
pub proof fn law_styled_text(part: PartView, c: Color, e: Effect, s: Seq<char>)
    requires
        part.fg is None,
        part.bg is None,
        part.effects.len() == 0,
    ensures
        part.formatted(s) == s,
        (PartView { fg: Some(c), ..part }).formatted(s) == color::ansi_fg(Some(c)) + s
            + "\x1b[0m"@,
        (PartView { bg: Some(c), ..part }).formatted(s) == color::ansi_bg(c) + s + "\x1b[0m"@,
        (PartView { effects: seq![e], ..part }).formatted(s) == style::effect_escape(e) + s
            + "\x1b[0m"@,
{
    assert(part.opening() =~= Seq::empty());
    lemma_sequences_say_something(c, e);
    let fg = PartView { fg: Some(c), ..part };
    assert(fg.opening() =~= color::ansi_fg(Some(c)));
    let bg = PartView { bg: Some(c), ..part };
    assert(bg.opening() =~= color::ansi_bg(c));
    let effect = PartView { effects: seq![e], ..part };
    assert(seq![e].drop_last() =~= Seq::empty());
    assert(style::effect_escapes(Seq::empty()) =~= Seq::empty());
    assert(style::effect_escapes(seq![e]) =~= style::effect_escape(e));
    assert(effect.opening() =~= style::effect_escape(e));
}

proof fn lemma_sequences_say_something(c: Color, e: Effect)
    ensures
        color::ansi_fg(Some(c)).len() > 0,
        color::ansi_bg(c).len() > 0,
        style::effect_escape(e).len() > 0,
{
    reveal_strlit("m");
    reveal_strlit("\x1b[1m");
    reveal_strlit("\x1b[2m");
    reveal_strlit("\x1b[3m");
    reveal_strlit("\x1b[4m");
    reveal_strlit("\x1b[5m");
    reveal_strlit("\x1b[7m");
    reveal_strlit("\x1b[8m");
    reveal_strlit("\x1b[9m");
}

/// A style is switched on effect by effect, then with the color of the text, then with the color
/// behind it; and whatever is in the style, its text stands in one piece before the sequence that
/// switches it off.
pub proof fn law_styles_are_switched_on(part: PartView, e: Effect, s: Seq<char>)
    ensures
        (PartView { effects: seq![e] + part.effects, ..part }).formatted(s) == style::effect_escape(
            e,
        ) + part.opening() + s + "\x1b[0m"@,
        part.opening().len() > 0 ==> part.formatted(s) == part.opening() + s + "\x1b[0m"@,
        part.fg is Some && part.bg is Some ==> part.opening() == (PartView {
            fg: None,
            bg: None,
            ..part
        }).opening() + color::ansi_fg(part.fg) + color::ansi_bg(part.bg->0),
        part.opening().len() == 0 <==> part.fg is None && part.bg is None && part.effects.len() == 0,
{
    lemma_effects(part.effects, e);
    lemma_sequences_say_something(Color::Ansi256(0), e);
    let more = PartView { effects: seq![e] + part.effects, ..part };
    assert(more.opening() =~= style::effect_escape(e) + part.opening());
    let bare = PartView { fg: None, bg: None, ..part };
    if let (Some(f), Some(b)) = (part.fg, part.bg) {
        assert(bare.opening() =~= style::effect_escapes(part.effects));
        assert(part.opening() =~= bare.opening() + color::ansi_fg(part.fg) + color::ansi_bg(b));
    }
    if let Some(c) = part.fg {
        lemma_sequences_say_something(c, e);
    }
    if let Some(c) = part.bg {
        lemma_sequences_say_something(c, e);
    }
    if part.effects.len() > 0 {
        lemma_sequences_say_something(Color::Ansi256(0), part.effects.last());
    }
}

proof fn lemma_effects(effects: Seq<Effect>, e: Effect)
    ensures
        style::effect_escapes(seq![e] + effects) == style::effect_escape(e)
            + style::effect_escapes(effects),
    decreases effects.len(),
{
    let all = seq![e] + effects;
    if effects.len() == 0 {
        assert(all.drop_last() =~= Seq::empty());
        assert(style::effect_escapes(all.drop_last()) =~= Seq::empty());
        assert(style::effect_escapes(effects) =~= Seq::empty());
        assert(all.last() == e);
        assert(style::effect_escapes(all) =~= style::effect_escape(e) + style::effect_escapes(
            effects,
        ));
    } else {
        lemma_effects(effects.drop_last(), e);
        assert(all.drop_last() =~= seq![e] + effects.drop_last());
        assert(style::effect_escapes(all) =~= style::effect_escape(e) + style::effect_escapes(
            effects,
        ));
    }
}

/// A format is read part by part, each from its `#[` on. A text with neither `#[` nor `]` is one
/// part without a style.
pub proof fn law_formats_are_read_in_parts(
    x: Seq<char>,
    y: Seq<char>,
    config: Map<Seq<char>, String>,
)
    requires
        !text::has(y, "#["@),
    ensures
        style::parts_of(x + "#["@ + y, config) == style::parts_of(x, config).push(
            style::part_of(y, config),
        ),
        !text::has(y, "]"@) ==> style::parts_of(y, config) == seq![
            PartView { fg: None, bg: None, effects: Seq::empty(), content: y },
        ],
{
    lemma_last_piece(x, y);
    assert(style::parts_of(x + "#["@ + y, config) =~= style::parts_of(x, config).push(
        style::part_of(y, config),
    ));
    if !text::has(y, "]"@) {
        reveal_strlit("#[");
        text_laws::law_splitting(y, "#["@, Seq::empty());
        text::lemma_find_from(y, "]"@, 0);
        text_laws::law_affixes(y, "#["@, y);
        if text::starts(y, "#["@) {
            let r = choose|r: Seq<char>| y == #[trigger] ("#["@ + r);
            text_laws::law_has(y, "#["@);
            assert(y =~= Seq::empty() + "#["@ + r);
        }
        assert(style::parts_of(y, config) =~= seq![style::part_of(y, config)]);
    }
}

} // verus!

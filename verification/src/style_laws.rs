//! What holds of the styles that formats ask for.

use vstd::prelude::*;

use crate::color;
use crate::color::{AnsiColor, Color};
use crate::color_laws;
use crate::number;
use crate::style;
use crate::style::{Effect, PartView};
use crate::text;
use crate::text_laws;

verus! {

/// The number that terminals know an effect by.
pub open spec fn effect_number(e: Effect) -> nat {
    match e {
        Effect::Bold => 1,
        Effect::Dimmed => 2,
        Effect::Italic => 3,
        Effect::Underscore => 4,
        Effect::Blink => 5,
        Effect::Reverse => 7,
        Effect::Hidden => 8,
        Effect::Strikethrough => 9,
    }
}

/// The word that a format asks for an effect with.
pub open spec fn effect_word(e: Effect) -> Seq<char> {
    match e {
        Effect::Bold => "bold"@,
        Effect::Dimmed => "dim"@,
        Effect::Italic => "italic"@,
        Effect::Underscore => "underscore"@,
        Effect::Blink => "blink"@,
        Effect::Reverse => "reverse"@,
        Effect::Hidden => "hidden"@,
        Effect::Strikethrough => "strikethrough"@,
    }
}

/// The word that a format asks for a color with.
pub open spec fn color_word(c: AnsiColor) -> Seq<char> {
    match c {
        AnsiColor::Black => "black"@,
        AnsiColor::Red => "red"@,
        AnsiColor::Green => "green"@,
        AnsiColor::Yellow => "yellow"@,
        AnsiColor::Blue => "blue"@,
        AnsiColor::Magenta => "magenta"@,
        AnsiColor::Cyan => "cyan"@,
        AnsiColor::White => "white"@,
        AnsiColor::BrightBlack => "bright_black"@,
        AnsiColor::BrightRed => "bright_red"@,
        AnsiColor::BrightGreen => "bright_green"@,
        AnsiColor::BrightYellow => "bright_yellow"@,
        AnsiColor::BrightBlue => "bright_blue"@,
        AnsiColor::BrightMagenta => "bright_magenta"@,
        AnsiColor::BrightCyan => "bright_cyan"@,
        AnsiColor::BrightWhite => "bright_white"@,
    }
}

/// An effect is switched on by its number.
pub proof fn law_effect_sequences(e: Effect)
    ensures
        style::effect_escape(e) == "\x1b["@ + number::numeral(effect_number(e)) + "m"@,
{
    reveal_strlit("\x1b[");
    reveal_strlit("m");
    reveal_strlit("\x1b[1m");
    reveal_strlit("\x1b[2m");
    reveal_strlit("\x1b[3m");
    reveal_strlit("\x1b[4m");
    reveal_strlit("\x1b[5m");
    reveal_strlit("\x1b[7m");
    reveal_strlit("\x1b[8m");
    reveal_strlit("\x1b[9m");
    assert(style::effect_escape(e) =~= "\x1b["@ + number::numeral(effect_number(e)) + "m"@);
}

/// Every effect has its word, and no other word asks for one.
pub proof fn law_effect_words(e: Effect, word: Seq<char>)
    ensures
        style::effect_of(effect_word(e)) == Some(e),
        style::effect_of(word) is Some ==> word == effect_word(style::effect_of(word)->0),
{
    reveal_strlit("bold");
    reveal_strlit("dim");
    reveal_strlit("italic");
    reveal_strlit("underscore");
    reveal_strlit("blink");
    reveal_strlit("reverse");
    reveal_strlit("hidden");
    reveal_strlit("strikethrough");
    assert("bold"@.len() == 4 && "dim"@.len() == 3 && "italic"@.len() == 6);
    assert("underscore"@.len() == 10 && "blink"@.len() == 5 && "reverse"@.len() == 7);
    assert("hidden"@.len() == 6 && "strikethrough"@.len() == 13);
    assert("italic"@[0] != "hidden"@[0]);
}

/// Every color has its word, and no other word asks for one.
pub proof fn law_color_words(c: AnsiColor, word: Seq<char>)
    ensures
        style::named_color(color_word(c)) == Some(c),
        style::named_color(word) is Some ==> word == color_word(style::named_color(word)->0),
{
    reveal_strlit("black");
    reveal_strlit("red");
    reveal_strlit("green");
    reveal_strlit("yellow");
    reveal_strlit("blue");
    reveal_strlit("magenta");
    reveal_strlit("cyan");
    reveal_strlit("white");
    reveal_strlit("bright_black");
    reveal_strlit("bright_red");
    reveal_strlit("bright_green");
    reveal_strlit("bright_yellow");
    reveal_strlit("bright_blue");
    reveal_strlit("bright_magenta");
    reveal_strlit("bright_cyan");
    reveal_strlit("bright_white");
    assert("red"@.len() == 3 && "blue"@.len() == 4 && "cyan"@.len() == 4);
    assert("black"@.len() == 5 && "green"@.len() == 5 && "white"@.len() == 5);
    assert("yellow"@.len() == 6 && "magenta"@.len() == 7);
    assert("bright_red"@.len() == 10 && "bright_blue"@.len() == 11 && "bright_cyan"@.len() == 11);
    assert("bright_black"@.len() == 12 && "bright_green"@.len() == 12);
    assert("bright_white"@.len() == 12 && "bright_yellow"@.len() == 13);
    assert("bright_magenta"@.len() == 14);
    assert("black"@[0] == 'b' && "green"@[0] == 'g' && "white"@[0] == 'w');
    assert("blue"@[0] == 'b' && "cyan"@[0] == 'c');
    assert("bright_black"@[7] == 'b' && "bright_green"@[7] == 'g' && "bright_white"@[7] == 'w');
    assert("bright_blue"@[7] == 'b' && "bright_cyan"@[7] == 'c');
}

proof fn lemma_color_words_are_plain(c: AnsiColor)
    ensures
        color_word(c).len() > 0,
        'a' <= color_word(c)[0] <= 'z',
{
    reveal_strlit("black");
    reveal_strlit("red");
    reveal_strlit("green");
    reveal_strlit("yellow");
    reveal_strlit("blue");
    reveal_strlit("magenta");
    reveal_strlit("cyan");
    reveal_strlit("white");
    reveal_strlit("bright_black");
    reveal_strlit("bright_red");
    reveal_strlit("bright_green");
    reveal_strlit("bright_yellow");
    reveal_strlit("bright_blue");
    reveal_strlit("bright_magenta");
    reveal_strlit("bright_cyan");
    reveal_strlit("bright_white");
}

/// The colors of a format: six hexadecimal digits behind a number sign, a word, or a number up to
/// 255. A name behind a dollar sign stands for the color that the configuration gives under that
/// name, which is itself no such name.
pub proof fn law_colors_of_formats(
    hex: Seq<char>,
    c: AnsiColor,
    n: u8,
    alias: Seq<char>,
    other: Seq<char>,
    config: Map<Seq<char>, String>,
)
    ensures
        style::color_of("#"@ + hex, config) == (match color::rgb_of(hex) {
            Some(rgb) => Some(Color::Rgb(rgb.0 as u8, rgb.1 as u8, rgb.2 as u8)),
            None => None,
        }),
        style::color_of(color_word(c), config) == Some(Color::Ansi(c)),
        style::color_of(number::numeral(n as nat), config) == Some(Color::Ansi256(n)),
        !config.contains_key("color_"@ + alias) ==> style::color_of("$"@ + alias, config) is None,
        config.contains_key("color_"@ + alias) && config["color_"@ + alias]@ == other && (
        other.len() == 0 || other[0] != '$') ==> style::color_of("$"@ + alias, config)
            == style::color_of(other, config),
        config.contains_key("color_"@ + alias) && config["color_"@ + alias]@.len() > 0 && config[
        "color_"@ + alias]@[0] == '$' ==> style::color_of("$"@ + alias, config) is None,
        other.len() > 0 && other[0] != '#' && other[0] != '$' && style::named_color(other) is None
            && number::parsed(other, 255) is None ==> style::color_of(other, config) is None,
        other.len() == 0 ==> style::color_of(other, config) is None,
        number::parsed(other, 255) == Some(n as nat) ==> style::color_of(other, config) == Some(
            Color::Ansi256(n),
        ),
{
    reveal_strlit("#");
    reveal_strlit("$");
    let a = "#"@ + hex;
    assert(a[0] == '#');
    text_laws::law_affixes(a, "#"@, hex);
    lemma_head(a);
    let w = color_word(c);
    lemma_color_words_are_plain(c);
    law_color_words(c, w);
    lemma_head(w);
    let d = number::numeral(n as nat);
    text_laws::law_numerals(n as nat, 0);
    lemma_head(d);
    lemma_no_color_word(d);
    number::law_numeral_reads_back(n as nat, 255);
    let s = "$"@ + alias;
    assert(s[0] == '$');
    text_laws::law_affixes(s, "$"@, alias);
    lemma_head(other);
    if config.contains_key("color_"@ + alias) {
        let given = config["color_"@ + alias]@;
        lemma_head(given);
        if given.len() > 0 && given[0] == '$' {
            lemma_no_color_word(given);
            text_laws::law_reading_numbers(given, 255);
        }
    }
    if number::parsed(other, 255) is Some {
        text_laws::law_reading_numbers(other, 255);
        lemma_no_color_word(other);
    }
    if other.len() == 0 {
        text_laws::law_reading_numbers(other, 255);
        if let Some(named) = style::named_color(other) {
            law_color_words(named, other);
            lemma_color_words_are_plain(named);
        }
    }
}

proof fn lemma_head(s: Seq<char>)
    ensures
        text::starts(s, "#"@) <==> s.len() > 0 && s[0] == '#',
        text::starts(s, "$"@) <==> s.len() > 0 && s[0] == '$',
{
    reveal_strlit("#");
    reveal_strlit("$");
    if s.len() > 0 {
        assert(s.take(1)[0] == s[0]);
        if s[0] == '#' {
            assert(s.take(1) =~= "#"@);
        }
        if s[0] == '$' {
            assert(s.take(1) =~= "$"@);
        }
    }
}

proof fn lemma_no_color_word(s: Seq<char>)
    requires
        s.len() > 0,
        !('a' <= s[0] <= 'z'),
    ensures
        style::named_color(s) is None,
{
    if let Some(c) = style::named_color(s) {
        law_color_words(c, s);
        lemma_color_words_are_plain(c);
    }
}

/// A style is switched on by the sequences of its effects, that of its color, and that of its
/// background, each where there is one.
pub proof fn law_sequences_of_styles(part: PartView)
    ensures
        ({
            let effects = (PartView { fg: None, bg: None, ..part }).opening();
            &&& part.fg is None && part.bg is None ==> part.opening() == effects
            &&& part.fg is Some && part.bg is None ==> part.opening() == effects + color::ansi_fg(
                part.fg,
            )
            &&& part.fg is None && part.bg is Some ==> part.opening() == effects + color::ansi_bg(
                part.bg->0,
            )
            &&& part.fg is Some && part.bg is Some ==> part.opening() == effects + color::ansi_fg(
                part.fg,
            ) + color::ansi_bg(part.bg->0)
        }),
{
    let effects = (PartView { fg: None, bg: None, ..part }).opening();
    assert(effects =~= style::effect_escapes(part.effects));
    if part.fg is None && part.bg is None {
        assert(part.opening() =~= effects);
    }
    if part.fg is Some && part.bg is None {
        assert(part.opening() =~= effects + color::ansi_fg(part.fg));
    }
    if part.fg is None && part.bg is Some {
        assert(part.opening() =~= effects + color::ansi_bg(part.bg->0));
    }
    if part.fg is Some && part.bg is Some {
        assert(part.opening() =~= effects + color::ansi_fg(part.fg) + color::ansi_bg(part.bg->0));
    }
}

/// Whether `after` is the style `before` once a format asked for `word`: `fg=` sets the color and
/// `bg=` the background, an effect comes behind those that there are, and any other word is passed
/// over.
pub open spec fn asks(
    before: PartView,
    word: Seq<char>,
    after: PartView,
    config: Map<Seq<char>, String>,
) -> bool {
    &&& after.content == before.content
    &&& forall|c: Seq<char>|
        word == #[trigger] ("fg="@ + c) ==> after.fg == style::color_of(c, config) && after.bg
            == before.bg && after.effects == before.effects
    &&& forall|c: Seq<char>|
        word == #[trigger] ("bg="@ + c) ==> after.bg == style::color_of(c, config) && after.fg
            == before.fg && after.effects == before.effects
    &&& forall|e: Effect|
        word == #[trigger] effect_word(e) ==> after.effects == before.effects + seq![e] && after.fg
            == before.fg && after.bg == before.bg
    &&& (forall|c: Seq<char>| word != #[trigger] ("fg="@ + c)) && (forall|c: Seq<char>|
        word != #[trigger] ("bg="@ + c)) && (forall|e: Effect| word != #[trigger] effect_word(e))
        ==> after == before
}

proof fn lemma_styled(before: PartView, word: Seq<char>, config: Map<Seq<char>, String>)
    ensures
        asks(before, word, style::styled(before, word, config), config),
{
    let after = style::styled(before, word, config);
    reveal_strlit("fg=");
    reveal_strlit("bg=");
    assert forall|c: Seq<char>| word == #[trigger] ("fg="@ + c) implies after.fg == style::color_of(
        c,
        config,
    ) && after.bg == before.bg && after.effects == before.effects by {
        text_laws::law_affixes(word, "fg="@, c);
    }
    assert forall|c: Seq<char>| word == #[trigger] ("bg="@ + c) implies after.bg == style::color_of(
        c,
        config,
    ) && after.fg == before.fg && after.effects == before.effects by {
        text_laws::law_affixes(word, "bg="@, c);
        if text::starts(word, "fg="@) {
            assert(word.take(3)[0] == word[0]);
            assert(word[0] == 'b');
        }
    }
    assert forall|e: Effect| word == #[trigger] effect_word(e) implies after.effects
        == before.effects + seq![e] && after.fg == before.fg && after.bg == before.bg by {
        law_effect_words(e, word);
        lemma_no_assignment(e);
        assert(before.effects.push(e) =~= before.effects + seq![e]);
    }
    if (forall|c: Seq<char>| word != #[trigger] ("fg="@ + c)) && (forall|c: Seq<char>|
        word != #[trigger] ("bg="@ + c)) && (forall|e: Effect| word != #[trigger] effect_word(e)) {
        text_laws::law_affixes(word, "fg="@, Seq::empty());
        text_laws::law_affixes(word, "bg="@, Seq::empty());
        law_effect_words(Effect::Bold, word);
    }
}

proof fn lemma_no_assignment(e: Effect)
    ensures
        !text::starts(effect_word(e), "fg="@),
        !text::starts(effect_word(e), "bg="@),
{
    reveal_strlit("fg=");
    reveal_strlit("bg=");
    reveal_strlit("bold");
    reveal_strlit("dim");
    reveal_strlit("italic");
    reveal_strlit("underscore");
    reveal_strlit("blink");
    reveal_strlit("reverse");
    reveal_strlit("hidden");
    reveal_strlit("strikethrough");
    let word = effect_word(e);
    assert(word.take(3)[1] == word[1]);
    assert("fg="@[1] == 'g' && "bg="@[1] == 'g');
    assert(word[1] != 'g');
}

/// The last piece between commas.
proof fn lemma_last_word(x: Seq<char>, y: Seq<char>)
    requires
        !text::has(y, ","@),
    ensures
        text::pieces(x + ","@ + y, ","@) == text::pieces(x, ","@).push(y),
    decreases x.len(),
{
    reveal_strlit(",");
    let pat = ","@;
    assert(pat.drop_last() =~= Seq::empty());
    if text::has(x, pat) {
        text::lemma_find_from(x, pat, 0);
        let k = choose|i: int| text::occurs_at(x, pat, i);
        let i = text::find_from(x, pat, 0)->0;
        let a = x.take(i);
        let b = x.skip(i + 1);
        assert(x =~= a + pat + b) by {
            assert(x.subrange(i, i + 1)[0] == x[i]);
        }
        assert(a + pat.drop_last() =~= a);
        if text::has(a, pat) {
            let j = choose|j: int| text::occurs_at(a, pat, j);
            assert(a.subrange(j, j + 1) =~= x.subrange(j, j + 1));
            assert(text::occurs_at(x, pat, j));
        }
        text_laws::law_splitting(a, pat, b);
        text_laws::law_splitting(a, pat, b + pat + y);
        lemma_last_word(b, y);
        assert(x + pat + y =~= a + pat + (b + pat + y));
        assert(seq![a] + text::pieces(b, pat).push(y) =~= (seq![a] + text::pieces(b, pat)).push(y));
    } else {
        assert(x + pat.drop_last() =~= x);
        text_laws::law_splitting(x, pat, y);
        text_laws::law_splitting(y, pat, y);
        assert(seq![x] + seq![y] =~= seq![x].push(y));
    }
}

/// A part of a format is what follows the bracket, in the style that the words before the bracket
/// ask for, one after another. The mark that a part begins with belongs to neither. A part without
/// a bracket has no style.
pub proof fn law_parts_of_formats(
    words: Seq<char>,
    word: Seq<char>,
    content: Seq<char>,
    config: Map<Seq<char>, String>,
)
    requires
        !text::has(words, "]"@),
        !text::has(word, "]"@),
        !text::has(word, ","@),
        !text::starts(words, "#["@),
        !text::starts(word, "#["@),
    ensures
        ({
            let plain = PartView { fg: None, bg: None, effects: Seq::empty(), content };
            let some = style::part_of(words + "]"@ + content, config);
            let more = style::part_of(words + ","@ + word + "]"@ + content, config);
            &&& asks(plain, word, style::part_of(word + "]"@ + content, config), config)
            &&& asks(some, word, more, config)
        }),
        !text::starts(content, "#["@) ==> style::part_of("#["@ + content, config)
            == style::part_of(content, config),
        !text::starts(content, "#["@) && !text::has(content, "]"@) ==> style::part_of(
            content,
            config,
        ) == (PartView { fg: None, bg: None, effects: Seq::empty(), content }),
{
    reveal_strlit("#[");
    reveal_strlit("]");
    reveal_strlit(",");
    let plain = style::unstyled(content);
    let one = word + "]"@ + content;
    lemma_no_mark(word, content);
    color_laws::lemma_first_bracket(word, content);
    assert(one.subrange(0, word.len() as int) =~= word);
    assert(text::rest(one, (word.len() + 1) as int) =~= content);
    text_laws::law_splitting(word, ","@, word);
    let none = Seq::<Seq<char>>::empty();
    assert(seq![word].drop_last() =~= none);
    assert(style::styled_by(plain, none, config) == plain);
    assert(style::styled_by(plain, seq![word], config) == style::styled(plain, word, config));
    lemma_styled(plain, word, config);
    let some = words + "]"@ + content;
    lemma_no_mark(words, content);
    color_laws::lemma_first_bracket(words, content);
    assert(some.subrange(0, words.len() as int) =~= words);
    assert(text::rest(some, (words.len() + 1) as int) =~= content);
    let both = words + ","@ + word;
    let more = both + "]"@ + content;
    if text::has(both, "]"@) {
        let i = choose|i: int| text::occurs_at(both, "]"@, i);
        assert(both.subrange(i, i + 1)[0] == both[i]);
        if i < words.len() {
            assert(words.subrange(i, i + 1) =~= "]"@);
            assert(text::occurs_at(words, "]"@, i));
        } else {
            let j = i - words.len() - 1;
            assert(word.subrange(j, j + 1) =~= "]"@);
            assert(text::occurs_at(word, "]"@, j));
        }
    }
    if text::starts(both, "#["@) {
        assert(both.take(2)[0] == both[0]);
        assert(both.take(2)[1] == both[1]);
        if words.len() >= 2 {
            assert(words.take(2) =~= both.take(2));
        }
    }
    lemma_no_mark(both, content);
    color_laws::lemma_first_bracket(both, content);
    assert(more.subrange(0, both.len() as int) =~= both);
    assert(text::rest(more, (both.len() + 1) as int) =~= content);
    lemma_last_word(words, word);
    let pieces = text::pieces(words, ","@);
    assert(pieces.push(word).drop_last() =~= pieces);
    lemma_styled(style::part_of(some, config), word, config);
    assert(words + ","@ + word + "]"@ + content =~= more);
    text_laws::law_affixes(content, "#["@, content);
    if !text::has(content, "]"@) {
        text::lemma_find_from(content, "]"@, 0);
    }
}

proof fn lemma_no_mark(words: Seq<char>, content: Seq<char>)
    requires
        !text::starts(words, "#["@),
    ensures
        !text::starts(words + "]"@ + content, "#["@),
{
    reveal_strlit("#[");
    reveal_strlit("]");
    let s = words + "]"@ + content;
    if text::starts(s, "#["@) {
        assert(s.take(2)[0] == s[0]);
        assert(s.take(2)[1] == s[1]);
        if words.len() >= 2 {
            assert(words.take(2) =~= s.take(2));
        }
    }
}

} // verus!

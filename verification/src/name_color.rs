//! Color changes inside a name.
//!
//! A name may hold `#[fg=#rrggbb]`, which changes the color of what follows, and `#[fg=]`, which
//! gives it back the color of the part that the name is shown in.

use vstd::prelude::*;
use vstd::string::*;

use crate::color;
use crate::color::{color_to_ansi_fg, hex_to_rgb, rgb_sequence, Color};
use crate::text;

verus! {

/// What the attributes of a color change print. Attributes that are not understood print nothing.
pub open spec fn color_change(attrs: Seq<char>, parent_fg: Option<Color>) -> Seq<char> {
    match text::stripped(attrs, "fg="@) {
        Some(c) => if c.len() == 0 {
            color::ansi_fg(parent_fg)
        } else {
            match text::stripped(c, "#"@) {
                Some(hex) => match color::rgb_of(hex) {
                    Some(rgb) => color::rgb_escape(
                        "\x1b[38;2;"@,
                        rgb.0 as u8,
                        rgb.1 as u8,
                        rgb.2 as u8,
                    ),
                    None => Seq::empty(),
                },
                None => Seq::empty(),
            }
        },
        None => Seq::empty(),
    }
}

/// What stands behind a `#[`: attributes up to the first `]` and the text behind it. Where no `]`
/// follows, nothing was meant, and the text stays as it was.
pub open spec fn segment(s: Seq<char>, parent_fg: Option<Color>) -> Seq<char> {
    match text::find_from(s, "]"@, 0) {
        Some(end) => color_change(s.subrange(0, end), parent_fg) + text::rest(s, end + 1),
        None => "#["@ + s,
    }
}

/// A first piece of plain text, and the segments that follow it.
pub open spec fn segments(pieces: Seq<Seq<char>>, parent_fg: Option<Color>) -> Seq<char>
    decreases pieces.len(),
{
    if pieces.len() == 0 {
        Seq::empty()
    } else if pieces.len() == 1 {
        pieces[0]
    } else {
        segments(pieces.drop_last(), parent_fg) + segment(pieces.last(), parent_fg)
    }
}

/// `s` with its color changes carried out.
pub open spec fn colored(s: Seq<char>, parent_fg: Option<Color>) -> Seq<char> {
    segments(text::pieces(s, "#["@), parent_fg)
}

/// A name without a `#[` is shown as it is.
pub proof fn law_plain_names_stay(s: Seq<char>, parent_fg: Option<Color>)
    requires
        !text::has(s, "#["@),
    ensures
        colored(s, parent_fg) == s,
{
    text::lemma_find_from(s, "#["@, 0);
    assert(text::rest(s, 0) =~= s);
}

fn print_color_change(attrs: &str, parent_fg: Option<Color>) -> (r: String)
    ensures
        r@ == color_change(attrs@, parent_fg),
{
    match text::strip_prefix(attrs, "fg=") {
        Some(c) => if c.as_str().is_empty() {
            color_to_ansi_fg(parent_fg)
        } else {
            match text::strip_prefix(c.as_str(), "#") {
                Some(hex) => match hex_to_rgb(hex.as_str()) {
                    Ok(rgb) => rgb_sequence("\x1b[38;2;", rgb.0, rgb.1, rgb.2),
                    Err(_) => String::new(),
                },
                None => String::new(),
            }
        },
        None => String::new(),
    }
}

/// `s` with its color changes carried out. `parent_fg` is the color of the part that `s` is shown
/// in.
pub fn render_inline_format(s: &str, parent_fg: Option<Color>) -> (r: String)
    ensures
        r@ == colored(s@, parent_fg),
{
    if !text::contains(s, "#[") {
        proof {
            law_plain_names_stay(s@, parent_fg);
        }
        return s.to_owned();
    }
    proof {
        reveal_strlit("#[");
        reveal_strlit("]");
    }
    let pieces = text::split(s, "#[");
    let ghost all = pieces@.map_values(|p: String| p@);
    let bracket = text::chars_of("]");
    let mut out = String::new();
    let mut i: usize = 0;
    while i < pieces.len()
        invariant
            i <= pieces@.len(),
            all == pieces@.map_values(|p: String| p@),
            bracket@ == "]"@,
            bracket@.len() == 1,
            out@ == segments(all.take(i as int), parent_fg),
        decreases pieces@.len() - i,
    {
        let piece = pieces[i].as_str();
        assert(all.take(i + 1).drop_last() =~= all.take(i as int));
        assert(all[i as int] == piece@);
        if i == 0 {
            out.append(piece);
        } else {
            let chars = text::chars_of(piece);
            match text::find(&chars, &bracket, 0) {
                Some(end) => {
                    let attrs = text::text_between(&chars, 0, end);
                    out.append(print_color_change(attrs.as_str(), parent_fg).as_str());
                    out.append(text::text_between(&chars, end + 1, chars.len()).as_str());
                },
                None => {
                    out.append("#[");
                    out.append(piece);
                },
            }
            assert(out@ =~= segments(all.take(i as int), parent_fg) + segment(piece@, parent_fg));
        }
        i = i + 1;
    }
    assert(all.take(i as int) =~= all);
    out
}

} // verus!

//! The width of a text on the screen.

use vstd::prelude::*;

verus! {

/// What `console::measure_text_width` answers: the number of columns that a text takes up on the
/// screen, its escape sequences left out.
pub uninterp spec fn measured_width(s: Seq<char>) -> usize;

/// What `console::truncate_str` answers: for a text that is wider than `width`, the start of the
/// text, with `tail` behind it, and with the escape sequences of the text kept.
///
/// It need not fit into `width` columns: some characters are wider together than one by one, and
/// the text is cut off by the widths of its characters.
pub uninterp spec fn cut(s: Seq<char>, width: usize, tail: Seq<char>) -> Seq<char>;

/// Whether a text holds nothing but the printable characters of ASCII, each of them one column
/// wide.
pub open spec fn printable_ascii(s: Seq<char>) -> bool {
    forall|i: int| 0 <= i < s.len() ==> ' ' <= #[trigger] s[i] && s[i] <= '~'
}

/// The number of columns that a text takes up on the screen.
pub open spec fn text_width(s: Seq<char>) -> usize {
    if printable_ascii(s) {
        s.len() as usize
    } else {
        measured_width(s)
    }
}

/// `s`, cut off where it is wider than `width`.
pub open spec fn truncated(s: Seq<char>, width: usize) -> Seq<char> {
    if text_width(s) <= width {
        s
    } else if printable_ascii(s) {
        s.take(width as int)
    } else {
        cut(s, width, ""@)
    }
}

/// `console::measure_text_width`: its answer is a function of the text alone and, for printable
/// ASCII, the number of characters.
#[verifier::external_body]
fn console_width(s: &str) -> (r: usize)
    ensures
        r == measured_width(s@),
        printable_ascii(s@) ==> r == s@.len(),
{
    console::measure_text_width(s)
}

/// `console::truncate_str`: what comes back is a function of the arguments alone. A text that is
/// not wider than `width` comes back as it is, and printable ASCII without a tail is cut off after
/// `width` characters.
#[verifier::external_body]
fn console_truncated(s: &str, width: usize, tail: &str) -> (r: String)
    ensures
        r@ == cut(s@, width, tail@),
        measured_width(s@) <= width ==> r@ == s@,
        printable_ascii(s@) && s@.len() <= width ==> r@ == s@,
        printable_ascii(s@) && s@.len() > width && tail@.len() == 0 ==> r@ == s@.take(
            width as int,
        ),
{
    console::truncate_str(s, width, tail).into_owned()
}

/// The number of columns that a text takes up on the screen.
pub fn measure_text_width(s: &str) -> (r: usize)
    ensures
        r == text_width(s@),
{
    console_width(s)
}

/// A text, cut off where it is wider than `width`.
pub fn truncate_text(s: &str, width: usize) -> (r: String)
    ensures
        r@ == truncated(s@, width),
{
    proof {
        reveal_strlit("");
    }
    if console_width(s) <= width {
        return s.to_owned();
    }
    console_truncated(s, width, "")
}

} // verus!

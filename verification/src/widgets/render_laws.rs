//! What holds of the text of one tab.

use vstd::prelude::*;

use crate::data::{InputMode, PaneView, TabView};
use crate::name_color;
use crate::number;
use crate::search;
use crate::style;
use crate::style::PartView;
use crate::text;
use crate::text_laws;
use crate::text_map;
use crate::widgets::tabs;
use crate::widgets::tabs::TabsView;
use crate::width;

verus! {

/// The text that `texts` make up one after another.
pub open spec fn run_together(texts: Seq<Seq<char>>) -> Seq<char>
    decreases texts.len(),
{
    if texts.len() == 0 {
        Seq::empty()
    } else {
        texts[0] + run_together(texts.skip(1))
    }
}

/// One more text comes at the end.
pub proof fn lemma_run_together(texts: Seq<Seq<char>>, last: Seq<char>)
    ensures
        run_together(texts.push(last)) == run_together(texts) + last,
    decreases texts.len(),
{
    let all = texts.push(last);
    if texts.len() == 0 {
        assert(all.skip(1) =~= Seq::empty());
        assert(run_together(all.skip(1)) =~= Seq::empty());
        assert(run_together(all) =~= run_together(texts) + last);
    } else {
        lemma_run_together(texts.skip(1), last);
        assert(all.skip(1) =~= texts.skip(1).push(last));
        assert(run_together(all) =~= run_together(texts) + last);
    }
}

/// The marks that stand for something in the format of a tab.
pub open spec fn marks() -> Seq<Seq<char>> {
    seq![
        "{name}"@,
        "{index}"@,
        "{floating_total_count}"@,
        "{fullscreen_indicator}"@,
        "{sync_indicator}"@,
        "{floating_indicator}"@,
    ]
}

proof fn lemma_marks()
    ensures
        text_laws::is_mark("{name}"@),
        text_laws::is_mark("{index}"@),
        text_laws::is_mark("{floating_total_count}"@),
        text_laws::is_mark("{fullscreen_indicator}"@),
        text_laws::is_mark("{sync_indicator}"@),
        text_laws::is_mark("{floating_indicator}"@),
        text_laws::is_mark("{count}"@),
        forall|i: int, j: int|
            0 <= i < j < 6 ==> #[trigger] marks()[i] != #[trigger] marks()[j],
{
    reveal_strlit("{name}");
    reveal_strlit("{index}");
    reveal_strlit("{floating_total_count}");
    reveal_strlit("{fullscreen_indicator}");
    reveal_strlit("{sync_indicator}");
    reveal_strlit("{floating_indicator}");
    reveal_strlit("{count}");
    assert("{floating_total_count}"@[10] != "{floating_indicator}"@[10]);
    assert("{name}"@.len() != "{index}"@.len());
}

/// A mark holds no other mark.
proof fn lemma_other_mark(a: Seq<char>, b: Seq<char>, with: Seq<char>)
    requires
        text_laws::is_mark(a),
        text_laws::is_mark(b),
    ensures
        a != b ==> text::replaced(a, b, with) == a,
        text::replaced(a, a, with) == with,
        text_laws::braces_close(a),
{
    if a != b {
        if text::has(a, b) {
            let i = choose|i: int| text::occurs_at(a, b, i);
            assert(a.subrange(i, i + b.len())[0] == a[i]);
            assert(i == 0);
            assert(a.subrange(0, b.len() as int)[b.len() - 1] == a[b.len() - 1]);
            assert(b.len() == a.len());
            assert(a.subrange(0, b.len() as int) =~= a);
        }
        text_laws::law_replacing(a, b, Seq::empty(), with);
    }
    let none = Seq::<char>::empty();
    if text::has(none + a.drop_last(), a) {
        let i = choose|i: int| text::occurs_at(none + a.drop_last(), a, i);
    }
    text_laws::law_replacing(none, a, none, with);
    if text::has(none, a) {
        let i = choose|i: int| text::occurs_at(none, a, i);
    }
    assert(none + a + none =~= a);
    assert(none + with + none =~= with);
    assert forall|i: int| 0 <= i < a.len() && #[trigger] a[i] == '{' implies text_laws::closes(
        a,
        i,
    ) by {
        assert(i == 0);
        assert(a[a.len() - 1] == '}');
    }
}

proof fn lemma_tally(s: Seq<PaneView>, p: spec_fn(PaneView) -> bool)
    ensures
        search::tally(s, p) == s.filter(p).len(),
        search::tally(s, p) > 0 <==> exists|i: int| 0 <= i < s.len() && p(#[trigger] s[i]),
    decreases s.len(),
{
    reveal(Seq::filter);
    if s.len() > 0 {
        let front = s.drop_last();
        lemma_tally(front, p);
        if search::tally(front, p) > 0 {
            let i = choose|i: int| 0 <= i < front.len() && p(#[trigger] front[i]);
            assert(p(s[i]));
        }
        if p(s.last()) {
            assert(p(s[s.len() - 1]));
        }
        if exists|i: int| 0 <= i < s.len() && p(#[trigger] s[i]) {
            let i = choose|i: int| 0 <= i < s.len() && p(#[trigger] s[i]);
            if i < front.len() {
                assert(p(front[i]));
            }
        }
    }
}

/// The panes of a tab that float.
pub open spec fn floating_panes(panes: Map<usize, Seq<PaneView>>, position: usize) -> Seq<PaneView> {
    if panes.contains_key(position) {
        panes[position].filter(|p: PaneView| p.is_floating)
    } else {
        Seq::empty()
    }
}

/// What the indicator `given` prints where it is `on`. One that was not given leaves its mark.
pub open spec fn indicator(given: Option<Seq<char>>, on: bool, mark: Seq<char>) -> Seq<char> {
    if given is None {
        mark
    } else if on {
        given->0
    } else {
        Seq::empty()
    }
}

/// What each mark prints where it stands alone: the name of the tab with its colors carried out;
/// the numeral of its position, counted from 1; the numeral of the number of its floating panes;
/// and its indicators, each where the tab is in the state that it tells of.
///
/// An indicator that holds a brace might be taken for a mark itself, and is left out here; so is a
/// name that holds the mark for names.
pub proof fn law_marks(
    w: TabsView,
    tab: TabView,
    panes: Map<usize, Seq<PaneView>>,
    name: Seq<char>,
    part: PartView,
)
    requires
        w.fullscreen_indicator is Some ==> text_laws::has_no_brace(w.fullscreen_indicator->0),
        w.sync_indicator is Some ==> text_laws::has_no_brace(w.sync_indicator->0),
        w.floating_indicator is Some ==> text_laws::has_no_brace(w.floating_indicator->0),
    ensures
        ({
            let print = |content: Seq<char>|
                w.tab_content(tab, panes, name)(PartView { content, ..part });
            let colored = name_color::colored(name, part.fg);
            let floating = floating_panes(panes, tab.position);
            &&& text_laws::has_no_brace(colored) ==> print("{name}"@) == colored
            &&& !text::has(colored, "{name}"@) ==> print("{name}"@) == print(colored)
            &&& print("{index}"@) == number::numeral((tab.position + 1) as nat)
            &&& number::value(print("{index}"@)) == tab.position + 1
            &&& print("{floating_total_count}"@) == number::numeral(floating.len())
            &&& print("{fullscreen_indicator}"@) == indicator(
                w.fullscreen_indicator,
                tab.is_fullscreen_active,
                "{fullscreen_indicator}"@,
            )
            &&& print("{sync_indicator}"@) == indicator(
                w.sync_indicator,
                tab.is_sync_panes_active,
                "{sync_indicator}"@,
            )
            &&& print("{floating_indicator}"@) == indicator(
                w.floating_indicator,
                floating.len() > 0,
                "{floating_indicator}"@,
            )
        }),
{
    lemma_marks();
    reveal_strlit("");
    let all = marks();
    assert(all[0] != all[1] && all[0] != all[2] && all[0] != all[3] && all[0] != all[4] && all[0]
        != all[5]);
    assert(all[1] != all[2] && all[1] != all[3] && all[1] != all[4] && all[1] != all[5]);
    assert(all[2] != all[3] && all[2] != all[4] && all[2] != all[5]);
    assert(all[3] != all[4] && all[3] != all[5] && all[4] != all[5]);
    assert(""@ =~= Seq::empty());
    let colored = name_color::colored(name, part.fg);
    let index = number::numeral((tab.position + 1) as nat);
    let shown = tabs::panes_at(panes, tab.position);
    let count = search::tally(shown, tabs::floating());
    let floating = floating_panes(panes, tab.position);
    lemma_tally(shown, tabs::floating());
    assert(floating.len() == count) by {
        assert(tabs::floating() =~= (|p: PaneView| p.is_floating));
        reveal(Seq::filter);
    }
    let total = number::numeral(count);
    text_laws::law_numerals((tab.position + 1) as nat, 0);
    text_laws::law_numerals(count, 0);
    lemma_digits_have_no_brace(index);
    lemma_digits_have_no_brace(total);
    lemma_alone("{name}"@, colored, index, total);
    lemma_alone("{index}"@, colored, index, total);
    lemma_alone("{floating_total_count}"@, colored, index, total);
    lemma_alone("{fullscreen_indicator}"@, colored, index, total);
    lemma_alone("{sync_indicator}"@, colored, index, total);
    lemma_alone("{floating_indicator}"@, colored, index, total);
    text_laws::law_replacing(colored, "{name}"@, Seq::empty(), colored);
    if text_laws::has_no_brace(colored) {
        lemma_untouched(colored, index, total);
    }
    lemma_untouched(index, index, total);
    lemma_untouched(total, index, total);
    lemma_untouched(Seq::empty(), index, total);
    if let Some(i) = w.fullscreen_indicator {
        lemma_untouched(i, index, total);
    }
    if let Some(i) = w.sync_indicator {
        lemma_untouched(i, index, total);
    }
}

proof fn lemma_digits_have_no_brace(s: Seq<char>)
    requires
        forall|i: int| 0 <= i < s.len() ==> '0' <= #[trigger] s[i] && s[i] <= '9',
    ensures
        text_laws::has_no_brace(s),
{
}

/// What the replacement of each mark makes of the mark `m`.
proof fn lemma_alone(m: Seq<char>, colored: Seq<char>, index: Seq<char>, total: Seq<char>)
    requires
        text_laws::is_mark(m),
    ensures
        text::replaced(m, "{name}"@, colored) == (if m == "{name}"@ {
            colored
        } else {
            m
        }),
        text::replaced(m, "{index}"@, index) == (if m == "{index}"@ {
            index
        } else {
            m
        }),
        text::replaced(m, "{floating_total_count}"@, total) == (if m == "{floating_total_count}"@ {
            total
        } else {
            m
        }),
        forall|with: Seq<char>| #[trigger]
            text::replaced(m, "{fullscreen_indicator}"@, with) == (if m
                == "{fullscreen_indicator}"@ {
                with
            } else {
                m
            }),
        forall|with: Seq<char>| #[trigger]
            text::replaced(m, "{sync_indicator}"@, with) == (if m == "{sync_indicator}"@ {
                with
            } else {
                m
            }),
        forall|with: Seq<char>| #[trigger]
            text::replaced(m, "{floating_indicator}"@, with) == (if m == "{floating_indicator}"@ {
                with
            } else {
                m
            }),
{
    lemma_marks();
    lemma_other_mark(m, "{name}"@, colored);
    lemma_other_mark(m, "{index}"@, index);
    lemma_other_mark(m, "{floating_total_count}"@, total);
    assert forall|with: Seq<char>| #[trigger]
        text::replaced(m, "{fullscreen_indicator}"@, with) == (if m == "{fullscreen_indicator}"@ {
            with
        } else {
            m
        }) by {
        lemma_other_mark(m, "{fullscreen_indicator}"@, with);
    }
    assert forall|with: Seq<char>| #[trigger]
        text::replaced(m, "{sync_indicator}"@, with) == (if m == "{sync_indicator}"@ {
            with
        } else {
            m
        }) by {
        lemma_other_mark(m, "{sync_indicator}"@, with);
    }
    assert forall|with: Seq<char>| #[trigger]
        text::replaced(m, "{floating_indicator}"@, with) == (if m == "{floating_indicator}"@ {
            with
        } else {
            m
        }) by {
        lemma_other_mark(m, "{floating_indicator}"@, with);
    }
}

/// What the replacement of each mark makes of a text without a brace: nothing else.
proof fn lemma_untouched(s: Seq<char>, index: Seq<char>, total: Seq<char>)
    requires
        text_laws::has_no_brace(s),
    ensures
        text::replaced(s, "{index}"@, index) == s,
        text::replaced(s, "{floating_total_count}"@, total) == s,
        forall|with: Seq<char>| #[trigger] text::replaced(s, "{name}"@, with) == s,
        forall|with: Seq<char>| #[trigger] text::replaced(s, "{fullscreen_indicator}"@, with) == s,
        forall|with: Seq<char>| #[trigger] text::replaced(s, "{sync_indicator}"@, with) == s,
        forall|with: Seq<char>| #[trigger] text::replaced(s, "{floating_indicator}"@, with) == s,
{
    lemma_marks();
    text_laws::lemma_no_brace(s, "{index}"@, index);
    text_laws::lemma_no_brace(s, "{floating_total_count}"@, total);
    assert forall|with: Seq<char>| #[trigger] text::replaced(s, "{name}"@, with) == s by {
        text_laws::lemma_no_brace(s, "{name}"@, with);
    }
    assert forall|with: Seq<char>| #[trigger]
        text::replaced(s, "{fullscreen_indicator}"@, with) == s by {
        text_laws::lemma_no_brace(s, "{fullscreen_indicator}"@, with);
    }
    assert forall|with: Seq<char>| #[trigger] text::replaced(s, "{sync_indicator}"@, with) == s by {
        text_laws::lemma_no_brace(s, "{sync_indicator}"@, with);
    }
    assert forall|with: Seq<char>| #[trigger]
        text::replaced(s, "{floating_indicator}"@, with) == s by {
        text_laws::lemma_no_brace(s, "{floating_indicator}"@, with);
    }
}

/// Text without a brace is printed as it is.
pub proof fn law_plain_text(
    w: TabsView,
    tab: TabView,
    panes: Map<usize, Seq<PaneView>>,
    name: Seq<char>,
    part: PartView,
)
    requires
        text_laws::has_no_brace(part.content),
    ensures
        w.tab_content(tab, panes, name)(part) == part.content,
{
    lemma_untouched(
        part.content,
        number::numeral(tab.position as nat + 1),
        number::numeral(search::tally(tabs::panes_at(panes, tab.position), tabs::floating())),
    );
}

/// A format is printed piece by piece: what two pieces print together is what each of them prints,
/// one behind the other, if the braces of the first piece are closed. The braces of the name and of
/// the indicators have to be closed too.
pub proof fn law_formats_print_piece_by_piece(
    w: TabsView,
    tab: TabView,
    panes: Map<usize, Seq<PaneView>>,
    name: Seq<char>,
    part: PartView,
    first: Seq<char>,
    second: Seq<char>,
)
    requires
        text_laws::braces_close(first),
        text_laws::braces_close(name_color::colored(name, part.fg)),
        w.fullscreen_indicator is Some ==> text_laws::braces_close(w.fullscreen_indicator->0),
        w.sync_indicator is Some ==> text_laws::braces_close(w.sync_indicator->0),
        w.floating_indicator is Some ==> text_laws::braces_close(w.floating_indicator->0),
    ensures
        ({
            let print = |content: Seq<char>|
                w.tab_content(tab, panes, name)(PartView { content, ..part });
            print(first + second) == print(first) + print(second)
        }),
{
    lemma_marks();
    reveal_strlit("");
    let index = number::numeral(tab.position as nat + 1);
    let total = number::numeral(
        search::tally(tabs::panes_at(panes, tab.position), tabs::floating()),
    );
    let colored = name_color::colored(name, part.fg);
    text_laws::law_numerals(tab.position as nat + 1, 0);
    text_laws::law_numerals(
        search::tally(tabs::panes_at(panes, tab.position), tabs::floating()),
        0,
    );
    lemma_digits_have_no_brace(index);
    lemma_digits_have_no_brace(total);
    text_laws::lemma_no_brace(index, "{name}"@, index);
    text_laws::lemma_no_brace(total, "{name}"@, total);
    let (a1, b1) = lemma_step(first, second, "{name}"@, colored);
    let (a2, b2) = lemma_step(a1, b1, "{index}"@, index);
    let (a3, b3) = lemma_step(a2, b2, "{floating_total_count}"@, total);
    let (a4, b4) = lemma_indicated_step(
        a3,
        b3,
        "{fullscreen_indicator}"@,
        w.fullscreen_indicator,
        tab.is_fullscreen_active,
    );
    let (a5, b5) = lemma_indicated_step(
        a4,
        b4,
        "{sync_indicator}"@,
        w.sync_indicator,
        tab.is_sync_panes_active,
    );
    let (a6, b6) = lemma_indicated_step(
        a5,
        b5,
        "{floating_indicator}"@,
        w.floating_indicator,
        search::tally(tabs::panes_at(panes, tab.position), tabs::floating()) > 0,
    );
}

proof fn lemma_step(x: Seq<char>, y: Seq<char>, pat: Seq<char>, with: Seq<char>) -> (r: (
    Seq<char>,
    Seq<char>,
))
    requires
        text_laws::braces_close(x),
        text_laws::braces_close(with),
        text_laws::is_mark(pat),
    ensures
        r.0 == text::replaced(x, pat, with),
        r.1 == text::replaced(y, pat, with),
        text::replaced(x + y, pat, with) == r.0 + r.1,
        text_laws::braces_close(r.0),
{
    text_laws::lemma_replaced_add(x, y, pat, with);
    text_laws::lemma_closed_replaced(x, pat, with);
    (text::replaced(x, pat, with), text::replaced(y, pat, with))
}

proof fn lemma_indicated_step(
    x: Seq<char>,
    y: Seq<char>,
    mark: Seq<char>,
    given: Option<Seq<char>>,
    on: bool,
) -> (r: (Seq<char>, Seq<char>))
    requires
        text_laws::braces_close(x),
        given is Some ==> text_laws::braces_close(given->0),
        text_laws::is_mark(mark),
    ensures
        r.0 == tabs::indicated(x, mark, given, on),
        r.1 == tabs::indicated(y, mark, given, on),
        tabs::indicated(x + y, mark, given, on) == r.0 + r.1,
        text_laws::braces_close(r.0),
{
    reveal_strlit("");
    if let Some(i) = given {
        let with = if on {
            i
        } else {
            ""@
        };
        lemma_step(x, y, mark, with)
    } else {
        (x, y)
    }
}

/// An indicator may hold marks itself. What it prints is then what it would print in the place of the
/// mark, as long as it holds no mark that was dealt with before its own.
pub proof fn law_marks_in_indicators(
    w: TabsView,
    tab: TabView,
    panes: Map<usize, Seq<PaneView>>,
    name: Seq<char>,
    part: PartView,
    given: Seq<char>,
)
    requires
        !text::has(given, "{name}"@),
        !text::has(given, "{index}"@),
        !text::has(given, "{floating_total_count}"@),
        !text::has(given, "{fullscreen_indicator}"@),
    ensures
        ({
            let print = |content: Seq<char>|
                w.tab_content(tab, panes, name)(PartView { content, ..part });
            let unsynced = !text::has(given, "{sync_indicator}"@);
            let unfloating = !text::has(given, "{floating_indicator}"@);
            &&& w.fullscreen_indicator == Some(given) && tab.is_fullscreen_active ==> print(
                "{fullscreen_indicator}"@,
            ) == print(given)
            &&& w.sync_indicator == Some(given) && tab.is_sync_panes_active && unsynced ==> print(
                "{sync_indicator}"@,
            ) == print(given)
            &&& w.floating_indicator == Some(given) && floating_panes(panes, tab.position).len() > 0
                && unsynced && unfloating ==> print("{floating_indicator}"@) == print(given)
        }),
{
    lemma_marks();
    reveal_strlit("");
    let all = marks();
    assert(all[0] != all[3] && all[1] != all[3] && all[2] != all[3] && all[3] != all[4] && all[3]
        != all[5]);
    assert(all[0] != all[4] && all[1] != all[4] && all[2] != all[4] && all[4] != all[5]);
    assert(all[0] != all[5] && all[1] != all[5] && all[2] != all[5]);
    let colored = name_color::colored(name, part.fg);
    let index = number::numeral(tab.position as nat + 1);
    let shown = tabs::panes_at(panes, tab.position);
    lemma_tally(shown, tabs::floating());
    assert(floating_panes(panes, tab.position).len() == search::tally(shown, tabs::floating())) by {
        assert(tabs::floating() =~= (|p: PaneView| p.is_floating));
        reveal(Seq::filter);
    }
    let total = number::numeral(search::tally(shown, tabs::floating()));
    lemma_alone("{fullscreen_indicator}"@, colored, index, total);
    lemma_alone("{sync_indicator}"@, colored, index, total);
    lemma_alone("{floating_indicator}"@, colored, index, total);
    text_laws::law_replacing(given, "{name}"@, Seq::empty(), colored);
    text_laws::law_replacing(given, "{index}"@, Seq::empty(), index);
    text_laws::law_replacing(given, "{floating_total_count}"@, Seq::empty(), total);
    assert forall|with: Seq<char>| #[trigger]
        text::replaced(given, "{fullscreen_indicator}"@, with) == given by {
        text_laws::law_replacing(given, "{fullscreen_indicator}"@, Seq::empty(), with);
    }
    if !text::has(given, "{sync_indicator}"@) {
        assert forall|with: Seq<char>| #[trigger]
            text::replaced(given, "{sync_indicator}"@, with) == given by {
            text_laws::law_replacing(given, "{sync_indicator}"@, Seq::empty(), with);
        }
    }
    if !text::has(given, "{floating_indicator}"@) {
        assert forall|with: Seq<char>| #[trigger]
            text::replaced(given, "{floating_indicator}"@, with) == given by {
            text_laws::law_replacing(given, "{floating_indicator}"@, Seq::empty(), with);
        }
    }
}

/// A marker prints the number of tabs that it stands for in the place of its mark, its other text
/// as it is, and its parts one after another.
pub proof fn law_truncation_markers(count: nat, part: PartView, first: Seq<char>, second: Seq<char>)
    ensures
        ({
            let print = |content: Seq<char>|
                tabs::marker_content(count)(PartView { content, ..part });
            &&& print("{count}"@) == number::numeral(count)
            &&& text_laws::has_no_brace(first) ==> print(first) == first
            &&& text_laws::braces_close(first) ==> print(first + second) == print(first) + print(
                second,
            )
        }),
{
    lemma_marks();
    let numeral = number::numeral(count);
    lemma_other_mark("{count}"@, "{count}"@, numeral);
    if text_laws::has_no_brace(first) {
        text_laws::lemma_no_brace(first, "{count}"@, numeral);
    }
    if text_laws::braces_close(first) {
        text_laws::lemma_replaced_add(first, second, "{count}"@, numeral);
    }
}

proof fn lemma_printed(parts: Seq<PartView>, f: spec_fn(PartView) -> Seq<char>)
    ensures
        tabs::printed(parts, f) == run_together(
            Seq::new(parts.len(), |k: int| parts[k].formatted(f(parts[k]))),
        ),
    decreases parts.len(),
{
    let texts = Seq::new(parts.len(), |k: int| parts[k].formatted(f(parts[k])));
    if parts.len() > 0 {
        let front = parts.drop_last();
        let before = Seq::new(front.len(), |k: int| front[k].formatted(f(front[k])));
        lemma_printed(front, f);
        lemma_run_together(before, parts.last().formatted(f(parts.last())));
        assert(texts =~= before.push(parts.last().formatted(f(parts.last()))));
    }
}

/// The markers beside the tabs are their parts, each in its style, one after another.
pub proof fn law_markers_are_their_parts(w: TabsView, count: nat)
    ensures
        w.start_marker(count) == run_together(
            Seq::new(
                w.truncate_start.len(),
                |k: int|
                    w.truncate_start[k].formatted(
                        tabs::marker_content(count)(w.truncate_start[k]),
                    ),
            ),
        ),
        w.end_marker(count) == run_together(
            Seq::new(
                w.truncate_end.len(),
                |k: int|
                    w.truncate_end[k].formatted(tabs::marker_content(count)(w.truncate_end[k])),
            ),
        ),
        w.separator is Some ==> w.separator_text() == w.separator->0.formatted(
            w.separator->0.content,
        ),
        w.separator is None ==> w.separator_text().len() == 0,
{
    lemma_printed(w.truncate_start, tabs::marker_content(count));
    lemma_printed(w.truncate_end, tabs::marker_content(count));
}

/// The text of a tab is what the parts of its format print, each in its style, one after another.
/// The format is that of the state that the tab is in: being renamed counts before fullscreen, and
/// fullscreen before synchronized input; and the focused tab has formats of its own. The name is
/// the one that the tab is to be shown under or, while a tab is renamed, the name that it has so
/// far or a request for one; and no more of it is shown than fits into the limit.
pub proof fn law_text_of_a_tab(
    w: TabsView,
    tab: TabView,
    panes: Map<usize, Seq<PaneView>>,
    mode: InputMode,
    display_name: Seq<char>,
    limit: Option<usize>,
    format: Seq<PartView>,
    name: Seq<char>,
)
    requires
        tab.active && mode == InputMode::RenameTab ==> format == w.rename,
        tab.active && mode != InputMode::RenameTab && tab.is_fullscreen_active ==> format
            == w.active_fullscreen,
        tab.active && mode != InputMode::RenameTab && !tab.is_fullscreen_active
            && tab.is_sync_panes_active ==> format == w.active_sync,
        tab.active && mode != InputMode::RenameTab && !tab.is_fullscreen_active
            && !tab.is_sync_panes_active ==> format == w.active,
        !tab.active && tab.is_fullscreen_active ==> format == w.normal_fullscreen,
        !tab.active && !tab.is_fullscreen_active && tab.is_sync_panes_active ==> format
            == w.normal_sync,
        !tab.active && !tab.is_fullscreen_active && !tab.is_sync_panes_active ==> format
            == w.normal,
        mode != InputMode::RenameTab ==> name == display_name,
        mode == InputMode::RenameTab && tab.name.len() > 0 ==> name == tab.name,
        mode == InputMode::RenameTab && tab.name.len() == 0 ==> name == "Enter name..."@,
    ensures
        ({
            let shown = match limit {
                Some(n) => width::truncated(name, n),
                None => name,
            };
            let print = w.tab_content(tab, panes, shown);
            w.tab_text(tab, panes, mode, display_name, limit) == run_together(
                Seq::new(format.len(), |k: int| format[k].formatted(print(format[k]))),
            )
        }),
{
    let shown = tabs::limited(name, limit);
    lemma_printed(format, w.tab_content(tab, panes, shown));
}

/// How wide a text is, and what is left of one that is too wide: printable ASCII is as wide as it is
/// long and is cut off where the room ends. What fits is left as it is.
pub proof fn law_widths(s: Seq<char>, room: usize)
    requires
        s.len() <= usize::MAX,
    ensures
        (forall|i: int| 0 <= i < s.len() ==> ' ' <= #[trigger] s[i] && s[i] <= '~') ==> {
            &&& width::text_width(s) == s.len()
            &&& width::truncated(s, room) == (if s.len() <= room {
                s
            } else {
                s.take(room as int)
            })
        },
        (exists|i: int| 0 <= i < s.len() && !(' ' <= #[trigger] s[i] <= '~')) ==> {
            &&& width::text_width(s) == width::measured_width(s)
            &&& width::measured_width(s) > room ==> width::truncated(s, room) == width::cut(
                s,
                room,
                Seq::empty(),
            )
        },
        width::text_width(s) <= room ==> width::truncated(s, room) == s,
{
    reveal_strlit("");
    assert(""@ =~= Seq::empty());
    if exists|i: int| 0 <= i < s.len() && !(' ' <= #[trigger] s[i] <= '~') {
        let i = choose|i: int| 0 <= i < s.len() && !(' ' <= #[trigger] s[i] <= '~');
        assert(!width::printable_ascii(s));
    }
}

/// What the settings of a configuration are for: each format is read from the setting of its name,
/// and one that is not set is that of the more general case. Fullscreen and synchronized input fall
/// back on the plain format, the focused tab on the others, and the tab that is being renamed on
/// the focused one. Markers that are not set are empty, and a bar between spaces separates the
/// tabs unless something else is set.
pub proof fn law_settings(config: Map<Seq<char>, String>)
    ensures
        ({
            let w = tabs::widget_of(config);
            let set = |key: Seq<char>| config.contains_key(key);
            let read = |key: Seq<char>| style::parts_of(config[key]@, config);
            &&& set("tab_normal"@) ==> w.normal == read("tab_normal"@)
            &&& !set("tab_normal"@) ==> w.normal.len() == 0
            &&& set("tab_normal_fullscreen"@) ==> w.normal_fullscreen == read(
                "tab_normal_fullscreen"@,
            )
            &&& !set("tab_normal_fullscreen"@) ==> w.normal_fullscreen == w.normal
            &&& set("tab_normal_sync"@) ==> w.normal_sync == read("tab_normal_sync"@)
            &&& !set("tab_normal_sync"@) ==> w.normal_sync == w.normal
            &&& set("tab_active"@) ==> w.active == read("tab_active"@)
            &&& !set("tab_active"@) ==> w.active == w.normal
            &&& set("tab_active_fullscreen"@) ==> w.active_fullscreen == read(
                "tab_active_fullscreen"@,
            )
            &&& !set("tab_active_fullscreen"@) ==> w.active_fullscreen == w.active
            &&& set("tab_active_sync"@) ==> w.active_sync == read("tab_active_sync"@)
            &&& !set("tab_active_sync"@) ==> w.active_sync == w.active
            &&& set("tab_rename"@) ==> w.rename == read("tab_rename"@)
            &&& !set("tab_rename"@) ==> w.rename == w.active
            &&& set("tab_truncate_start_format"@) ==> w.truncate_start == read(
                "tab_truncate_start_format"@,
            )
            &&& !set("tab_truncate_start_format"@) ==> w.truncate_start.len() == 0
            &&& set("tab_truncate_end_format"@) ==> w.truncate_end == read(
                "tab_truncate_end_format"@,
            )
            &&& !set("tab_truncate_end_format"@) ==> w.truncate_end.len() == 0
        }),
        ({
            let w = tabs::widget_of(config);
            let set = |key: Seq<char>| config.contains_key(key);
            &&& set("tab_separator"@) ==> w.separator == Some(
                style::part_of(config["tab_separator"@]@, config),
            )
            &&& !set("tab_separator"@) ==> w.separator == Some(style::part_of(" | "@, config))
            &&& set("tab_fullscreen_indicator"@) ==> w.fullscreen_indicator == Some(
                config["tab_fullscreen_indicator"@]@,
            )
            &&& !set("tab_fullscreen_indicator"@) ==> w.fullscreen_indicator is None
            &&& set("tab_sync_indicator"@) ==> w.sync_indicator == Some(
                config["tab_sync_indicator"@]@,
            )
            &&& !set("tab_sync_indicator"@) ==> w.sync_indicator is None
            &&& set("tab_floating_indicator"@) ==> w.floating_indicator == Some(
                config["tab_floating_indicator"@]@,
            )
            &&& !set("tab_floating_indicator"@) ==> w.floating_indicator is None
            &&& match w.display_count {
                Some(n) => set("tab_display_count"@) && number::parsed(
                    config["tab_display_count"@]@,
                    usize::MAX as nat,
                ) == Some(n as nat),
                None => set("tab_display_count"@) ==> number::parsed(
                    config["tab_display_count"@]@,
                    usize::MAX as nat,
                ) is None,
            }
        }),
{
    assert forall|key: Seq<char>| config.contains_key(key) implies #[trigger] text_map::setting(
        config,
        key,
    ) == Some(config[key]@) by {}
}

} // verus!

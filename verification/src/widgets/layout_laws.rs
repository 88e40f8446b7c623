//! What holds of the choice of the tabs that are shown.

use vstd::prelude::*;

use crate::data::{InputMode, TabView};
use crate::state::StateView;
use crate::tab_name;
use crate::widgets::layout;
use crate::widgets::tabs;
use crate::widgets::tabs::TabsView;
use crate::width;
use crate::window;

verus! {

/// The sum of numbers.
pub open spec fn total(numbers: Seq<nat>) -> nat
    decreases numbers.len(),
{
    if numbers.len() == 0 {
        0
    } else {
        numbers[0] + total(numbers.skip(1))
    }
}

/// One more number comes at the end.
pub proof fn lemma_total(numbers: Seq<nat>, last: nat)
    ensures
        total(numbers.push(last)) == total(numbers) + last,
    decreases numbers.len(),
{
    let all = numbers.push(last);
    if numbers.len() == 0 {
        assert(all.skip(1) =~= Seq::empty());
        assert(total(all.skip(1)) == 0);
    } else {
        lemma_total(numbers.skip(1), last);
        assert(all.skip(1) =~= numbers.skip(1).push(last));
    }
}

/// The text of a tab of the bar is that of the tab in the mode that the multiplexer is in, under
/// the name that stands for it.
pub proof fn law_texts_in_the_bar(w: TabsView, state: StateView, i: int, limit: Option<usize>)
    ensures
        ({
            let name = tab_name::shown_name(
                state.tabs[i],
                state.panes,
                state.overrides,
                state.fallbacks,
                state.spinner_idx,
            );
            w.text_at(state, i, limit) == w.tab_text(
                state.tabs[i],
                state.panes,
                state.mode,
                name,
                limit,
            )
        }),
{
}

/// The columns that the texts of the tabs `start..end` take up.
pub open spec fn columns(
    w: TabsView,
    state: StateView,
    start: int,
    end: int,
    limit: Option<usize>,
) -> Seq<nat> {
    Seq::new(
        (end - start) as nat,
        |k: int| width::text_width(w.text_at(state, start + k, limit)) as nat,
    )
}

proof fn lemma_tabs_width(
    w: TabsView,
    state: StateView,
    start: int,
    i: int,
    end: int,
    separator: Seq<char>,
    limit: Option<usize>,
)
    requires
        start <= i <= end,
    ensures
        w.tabs_width(state, start, i, end, separator, limit) == total(
            columns(w, state, start, i, limit),
        ) + width::text_width(separator) * (if i < end || i == start {
            i - start
        } else {
            i - start - 1
        }),
    decreases i - start,
{
    let wide = width::text_width(separator) as int;
    if separator.len() == 0 {
        assert(wide == 0);
    }
    let columns_here = columns(w, state, start, i, limit);
    if i == start {
        assert(columns_here =~= Seq::empty());
        assert(wide * 0 == 0);
    } else {
        lemma_tabs_width(w, state, start, i - 1, end, separator, limit);
        let before = columns(w, state, start, i - 1, limit);
        let last = width::text_width(w.text_at(state, i - 1, limit)) as nat;
        lemma_total(before, last);
        assert(columns_here =~= before.push(last));
        let n = i - 1 - start;
        assert(wide * (n + 1) == wide * n + wide) by (nonlinear_arith);
    }
}

/// A window is as wide as its tabs and the separators between them are, together with a marker on
/// each side where tabs are left out.
pub proof fn law_window_width(
    w: TabsView,
    state: StateView,
    start: int,
    end: int,
    separator: Seq<char>,
    limit: Option<usize>,
)
    requires
        0 <= start <= end <= state.tabs.len(),
    ensures
        ({
            let between = if start < end {
                end - start - 1
            } else {
                0
            };
            let left = if start > 0 {
                width::text_width(w.start_marker(start as nat)) as int
            } else {
                0
            };
            let right = if end < state.tabs.len() {
                width::text_width(w.end_marker((state.tabs.len() - end) as nat)) as int
            } else {
                0
            };
            w.window_width(state, start, end, separator, limit) == left + total(
                columns(w, state, start, end, limit),
            ) + width::text_width(separator) * between + right
        }),
{
    lemma_tabs_width(w, state, start, end, end, separator, limit);
}

/// Whether `first..last` holds the tabs of `start..end` that are nearest to the tab at the index
/// `active`. Of two that are equally near, the one on its right counts as nearer.
pub open spec fn nearest(start: int, end: int, active: int, first: int, last: int) -> bool {
    &&& start <= first <= active < last <= end
    &&& forall|out: int, shown: int|
        start <= out < first && first <= shown < last ==> #[trigger] distance(out, active)
            >= #[trigger] distance(shown, active)
    &&& forall|out: int, shown: int|
        last <= out < end && first <= shown < last ==> #[trigger] distance(out, active)
            >= #[trigger] distance(shown, active) && (shown < active ==> distance(out, active)
            > distance(shown, active))
}

/// How far apart two places are.
pub open spec fn distance(a: int, b: int) -> int {
    if a <= b {
        b - a
    } else {
        a - b
    }
}

/// Whether the tabs `first..last` fit into the bar, with their whole names or with names of one
/// column.
pub open spec fn can_fit(w: TabsView, state: StateView, first: int, last: int) -> bool {
    ||| w.window_width(state, first, last, w.separator_text(), None) <= state.cols
    ||| w.window_width(state, first, last, w.separator_text(), Some(1)) <= state.cols
}

spec fn balanced(start: int, end: int, active: int, first: int, last: int) -> bool {
    &&& start <= first <= active < last <= end
    &&& start < first ==> active - first + 1 >= last - 1 - active
    &&& last < end ==> last - active > active - first
}

proof fn lemma_balanced(start: int, end: int, active: int, first: int, last: int)
    ensures
        nearest(start, end, active, first, last) <==> balanced(start, end, active, first, last),
{
    if nearest(start, end, active, first, last) {
        if start < first {
            assert(distance(first - 1, active) >= distance(last - 1, active));
        }
        if last < end {
            assert(distance(last, active) >= distance(first, active));
        }
    }
}

proof fn lemma_shrunk(
    w: TabsView,
    state: StateView,
    start: int,
    end: int,
    active: int,
    first: int,
    last: int,
)
    requires
        balanced(start, end, active, first, last),
        forall|a: int, b: int| #[trigger]
            balanced(start, end, active, a, b) && b - a > last - first ==> !can_fit(
                w,
                state,
                a,
                b,
            ),
    ensures
        ({
            let (f, l, limit) = w.shrunk(state, first, last, active, w.separator_text());
            &&& balanced(start, end, active, f, l)
            &&& forall|a: int, b: int| #[trigger]
                balanced(start, end, active, a, b) && b - a > l - f ==> !can_fit(w, state, a, b)
            &&& can_fit(w, state, f, l) || l - f == 1
            &&& can_fit(w, state, f, l) ==> w.limit_for(state, f, l, w.separator_text())
                == Some(limit)
            &&& !can_fit(w, state, f, l) ==> limit == Some(1usize)
        }),
    decreases last - first,
{
    let separator = w.separator_text();
    if w.limit_for(state, first, last, separator) is None && last - first > 1 {
        assert(!can_fit(w, state, first, last));
        let (f, l) = layout::narrower(first, last, active)->0;
        assert(balanced(start, end, active, f, l));
        lemma_shrunk(w, state, start, end, active, f, l);
    }
}

/// No tab is left out without need. The tabs that are shown are those of the window that the
/// configuration allows, as many of them as can be made to fit into the bar, and of these the ones
/// that are nearest to the focused tab, at the index `active`. So where the whole window can be
/// made to fit, it is shown; and where not, no larger part of it would fit, not even with names of
/// one column. At least one tab is shown.
pub proof fn law_no_tab_is_left_out_without_need(w: TabsView, state: StateView, active: int)
    requires
        0 <= active < state.tabs.len(),
        forall|j: int| 0 <= j < active ==> !(#[trigger] state.tabs[j]).active,
        state.tabs[active].active || (active == 0 && forall|j: int|
            0 <= j < state.tabs.len() ==> !(#[trigger] state.tabs[j]).active),
        state.cols > 0,
        w.display_count != Some(0usize),
    ensures
        ({
            let (start, end) = window::window_of(state.tabs, w.display_count);
            let (first, last, limit) = w.layout(state);
            &&& nearest(start, end, active, first, last)
            &&& can_fit(w, state, start, end) ==> first == start && last == end
            &&& can_fit(w, state, first, last) || last - first == 1
            &&& forall|a: int, b: int| #[trigger]
                nearest(start, end, active, a, b) && b - a > last - first ==> !can_fit(
                    w,
                    state,
                    a,
                    b,
                )
        }),
{
    window::law_window(state.tabs, w.display_count);
    window::law_window_is_centered(state.tabs, 0, active);
    let (start, end) = window::window_of(state.tabs, w.display_count);
    let (first, last, limit) = w.layout(state);
    lemma_shrunk(w, state, start, end, active, start, end);
    lemma_balanced(start, end, active, first, last);
    assert forall|a: int, b: int| #[trigger]
        nearest(start, end, active, a, b) && b - a > last - first implies !can_fit(w, state, a, b) by {
        lemma_balanced(start, end, active, a, b);
    }
    if can_fit(w, state, start, end) {
        assert(balanced(start, end, active, start, end));
        assert(!(end - start > last - first));
    }
}

/// Names are limited only where they have to be, and no more than they have to be: without need
/// there is no limit, and under the limit that there is the shown tabs fit, but no longer under the
/// next one. Where nothing fits, the limit is one column.
pub proof fn law_names_are_not_cut_without_need(w: TabsView, state: StateView)
    requires
        state.tabs.len() > 0,
        state.cols > 0,
    ensures
        ({
            let (first, last, limit) = w.layout(state);
            let wide = |limit: Option<usize>|
                w.window_width(state, first, last, w.separator_text(), limit);
            &&& limit is None <==> wide(None) <= state.cols
            &&& limit is Some ==> limit->0 >= 1
            &&& limit is Some && limit->0 > 1 ==> wide(limit) <= state.cols
            &&& limit is Some && wide(Some(1)) <= state.cols ==> wide(limit) <= state.cols && wide(
                Some((limit->0 + 1) as usize),
            ) > state.cols && limit->0 < usize::MAX
        }),
{
    window::law_window(state.tabs, w.display_count);
    window::lemma_active_index(state.tabs);
    let (start, end) = window::window_of(state.tabs, w.display_count);
    let active = window::active_index(state.tabs);
    let (first, last, limit) = w.layout(state);
    let separator = w.separator_text();
    layout::law_layout(w, state);
    if start < end {
        lemma_shrunk(w, state, start, end, active, start, end);
    } else {
        lemma_tabs_width(w, state, start, end, end, separator, None);
        lemma_tabs_width(w, state, start, end, end, separator, Some(1));
        assert(columns(w, state, start, end, None) =~= columns(w, state, start, end, Some(1)));
    }
    layout::law_limit(w, state, first, last, separator);
    if limit is Some && w.window_width(state, first, last, separator, Some(1)) <= state.cols {
        assert(can_fit(w, state, first, last));
        lemma_widest(w, state, first, last);
    }
}

proof fn lemma_widest(w: TabsView, state: StateView, start: int, end: int)
    ensures
        w.widest_name(state, start, end) <= usize::MAX,
    decreases end - start,
{
    if start < end {
        lemma_widest(w, state, start, end - 1);
    }
}

/// A bar whose width is not known shows the whole window that the configuration allows, and whole
/// names. So does every bar where tabs are shown in no more columns than there are. One without
/// tabs shows nothing; and one that may show no tabs shows none.
pub proof fn law_layouts_without_need_to_choose(w: TabsView, state: StateView)
    ensures
        ({
            let (start, end) = window::window_of(state.tabs, w.display_count);
            &&& state.tabs.len() == 0 ==> w.layout(state) == (0int, 0int, None::<usize>)
            &&& state.tabs.len() > 0 && state.cols == 0 ==> w.layout(state) == (
                start,
                end,
                None::<usize>,
            )
            &&& state.tabs.len() > 0 && w.window_width(state, start, end, w.separator_text(), None)
                <= state.cols ==> w.layout(state) == (start, end, None::<usize>)
            &&& w.display_count == Some(0usize) ==> {
                let (first, last, _) = w.layout(state);
                first == last && first == start
            }
        }),
{
    window::law_window(state.tabs, w.display_count);
}

/// A window of more than one tab is narrowed by one tab: by the first where that is as far from the
/// tab at the index `active` as the last or farther, and by the last otherwise.
pub proof fn law_narrower_windows(start: int, end: int, active: int)
    ensures
        end - start <= 1 ==> layout::narrower(start, end, active) is None,
        end - start > 1 && active - start >= end - 1 - active ==> layout::narrower(
            start,
            end,
            active,
        ) == Some((start + 1, end)),
        end - start > 1 && active - start < end - 1 - active ==> layout::narrower(
            start,
            end,
            active,
        ) == Some((start, end - 1)),
{
}

/// The widest name is at least one column wide and no narrower than any; and if it is wider than
/// one column, it is as wide as the name of some tab.
pub proof fn law_widest_name(w: TabsView, state: StateView, start: int, end: int)
    ensures
        ({
            let widest = w.widest_name(state, start, end);
            let wide = |i: int|
                width::text_width(
                    tabs::raw_name(state.tabs[i], state.mode, state.name_at(i)),
                ) as int;
            &&& widest >= 1
            &&& forall|i: int| start <= i < end ==> #[trigger] wide(i) <= widest
            &&& widest > 1 ==> exists|i: int| start <= i < end && #[trigger] wide(i) == widest
        }),
    decreases end - start,
{
    let wide = |i: int|
        width::text_width(tabs::raw_name(state.tabs[i], state.mode, state.name_at(i))) as int;
    if start < end {
        law_widest_name(w, state, start, end - 1);
        let before = w.widest_name(state, start, end - 1);
        let last = wide(end - 1);
        if last <= before && before > 1 {
            let i = choose|i: int| start <= i < end - 1 && #[trigger] wide(i) == before;
            assert(wide(i) == before);
        }
    }
}

/// The name that is shown of a tab is the one that it is to be shown under or, while a tab is renamed,
/// the name that it has so far or a request for one. It is cut to the limit if there is one.
pub proof fn law_names_in_tabs(
    tab: TabView,
    mode: InputMode,
    display_name: Seq<char>,
    limit: usize,
)
    ensures
        mode != InputMode::RenameTab ==> tabs::raw_name(tab, mode, display_name) == display_name,
        mode == InputMode::RenameTab && tab.name.len() > 0 ==> tabs::raw_name(
            tab,
            mode,
            display_name,
        ) == tab.name,
        mode == InputMode::RenameTab && tab.name.len() == 0 ==> tabs::raw_name(
            tab,
            mode,
            display_name,
        ) == "Enter name..."@,
        tabs::limited(display_name, None) == display_name,
        tabs::limited(display_name, Some(limit)) == width::truncated(display_name, limit),
{
}

} // verus!

//! What holds of the bar as a whole, and of clicks on it.

use vstd::prelude::*;

use crate::search;
use crate::state::StateView;
use crate::widgets::bar;
use crate::widgets::layout;
use crate::widgets::layout_laws;
use crate::widgets::render_laws;
use crate::widgets::tabs::TabsView;
use crate::width;
use crate::window;

verus! {

/// What the bar draws for the tabs that it shows: the text of each, cut as the layout says, and
/// behind each but the last the separator.
pub open spec fn drawn_tabs(w: TabsView, state: StateView) -> Seq<Seq<char>> {
    let (start, end, limit) = w.layout(state);
    Seq::new(
        (end - start) as nat,
        |k: int|
            w.text_at(state, start + k, limit) + (if k < end - start - 1 {
                w.separator_text()
            } else {
                Seq::empty()
            }),
    )
}

/// What the bar draws before the first tab: how many tabs are left out there, if any are.
pub open spec fn drawn_before(w: TabsView, state: StateView) -> Seq<char> {
    let (start, end, limit) = w.layout(state);
    if start == 0 {
        Seq::empty()
    } else {
        w.start_marker(start as nat)
    }
}

/// What the bar draws behind the last tab: how many tabs are left out there, if any are.
pub open spec fn drawn_behind(w: TabsView, state: StateView) -> Seq<char> {
    let (start, end, limit) = w.layout(state);
    if end == state.tabs.len() {
        Seq::empty()
    } else {
        w.end_marker((state.tabs.len() - end) as nat)
    }
}

/// The column at which the tab number `k` of those shown is drawn.
pub open spec fn column(w: TabsView, state: StateView, k: int) -> nat {
    width::text_width(drawn_before(w, state)) as nat + layout_laws::total(
        drawn_tabs(w, state).take(k).map_values(|text: Seq<char>| width::text_width(text) as nat),
    )
}

/// Whether all of a text is printable ASCII.
pub open spec fn is_plain(s: Seq<char>) -> bool {
    forall|i: int| 0 <= i < s.len() ==> ' ' <= #[trigger] s[i] && s[i] <= '~'
}

/// The bar is what it draws before, for and behind its tabs, in this order.
pub proof fn law_bar_draws_its_tabs(w: TabsView, state: StateView)
    ensures
        w.bar_text(state) == drawn_before(w, state) + render_laws::run_together(
            drawn_tabs(w, state),
        ) + drawn_behind(w, state),
{
    let (start, end, limit) = w.layout(state);
    layout::law_layout(w, state);
    lemma_cells(w, state, end);
    let all = drawn_tabs(w, state);
    assert(all.take(end - start) =~= all);
}

proof fn lemma_cells(w: TabsView, state: StateView, i: int)
    requires
        ({
            let (start, end, limit) = w.layout(state);
            start <= i <= end
        }),
    ensures
        ({
            let (start, end, limit) = w.layout(state);
            w.cells(state, start, i, end, limit) == render_laws::run_together(
                drawn_tabs(w, state).take(i - start),
            )
        }),
    decreases i - w.layout(state).0,
{
    let (start, end, limit) = w.layout(state);
    let all = drawn_tabs(w, state);
    if start < i {
        layout::law_layout(w, state);
        lemma_cells(w, state, i - 1);
        let last = all[i - 1 - start];
        render_laws::lemma_run_together(all.take(i - 1 - start), last);
        assert(all.take(i - start) =~= all.take(i - 1 - start).push(last));
        assert(last =~= w.cell(state, i - 1, end, limit));
    } else {
        assert(all.take(0) =~= Seq::empty());
    }
}

proof fn lemma_column(w: TabsView, state: StateView, k: int)
    requires
        0 <= k < drawn_tabs(w, state).len(),
    ensures
        column(w, state, k + 1) == column(w, state, k) + width::text_width(
            drawn_tabs(w, state)[k],
        ),
{
    let measure = |text: Seq<char>| width::text_width(text) as nat;
    let all = drawn_tabs(w, state);
    layout_laws::lemma_total(all.take(k).map_values(measure), measure(all[k]));
    assert(all.take(k + 1).map_values(measure) =~= all.take(k).map_values(measure).push(
        measure(all[k]),
    ));
}

proof fn lemma_edge(w: TabsView, state: StateView, k: int)
    requires
        0 <= k <= drawn_tabs(w, state).len(),
    ensures
        ({
            let (start, end, limit) = w.layout(state);
            bar::edge(w.lead_width(start), w.cell_widths(state, start, end, limit), k) == column(
                w,
                state,
                k,
            )
        }),
    decreases k,
{
    let (start, end, limit) = w.layout(state);
    layout::law_layout(w, state);
    let all = drawn_tabs(w, state);
    if k > 0 {
        lemma_edge(w, state, k - 1);
        lemma_column(w, state, k - 1);
        assert(all[k - 1] =~= w.cell(state, start + (k - 1), end, limit));
    } else {
        assert(all.take(0).map_values(|text: Seq<char>| width::text_width(text) as nat)
            =~= Seq::empty());
    }
}

/// In a bar of printable ASCII, the column of a tab is the number of characters before it, and the
/// bar is no longer than it is wide, unless not even one tab with a name of one column fits.
pub proof fn law_columns_of_plain_bars(w: TabsView, state: StateView, k: int)
    requires
        is_plain(w.bar_text(state)),
        w.bar_text(state).len() <= usize::MAX,
        0 <= k <= drawn_tabs(w, state).len(),
    ensures
        column(w, state, k) == (drawn_before(w, state) + render_laws::run_together(
            drawn_tabs(w, state).take(k),
        )).len(),
        state.cols > 0 && state.tabs.len() > 0 ==> {
            let (start, end, limit) = w.layout(state);
            w.bar_text(state).len() <= state.cols || (end - start <= 1 && limit == Some(1usize))
        },
{
    let (start, end, limit) = w.layout(state);
    layout::law_layout(w, state);
    law_bar_draws_its_tabs(w, state);
    let all = drawn_tabs(w, state);
    let before = drawn_before(w, state);
    let behind = drawn_behind(w, state);
    let middle = render_laws::run_together(all);
    let bar = w.bar_text(state);
    assert forall|i: int| 0 <= i < before.len() implies ' ' <= #[trigger] before[i] && before[i]
        <= '~' by {
        assert(bar[i] == before[i]);
    }
    assert forall|i: int| 0 <= i < middle.len() implies ' ' <= #[trigger] middle[i] && middle[i]
        <= '~' by {
        assert(bar[before.len() + i] == middle[i]);
    }
    assert forall|i: int| 0 <= i < behind.len() implies ' ' <= #[trigger] behind[i] && behind[i]
        <= '~' by {
        assert(bar[before.len() + middle.len() + i] == behind[i]);
    }
    let n = all.len() as int;
    assert(all.take(n) =~= all);
    lemma_plain_columns(w, state, n);
    lemma_plain_columns(w, state, k);
    lemma_tabs_width_of_plain(w, state, end);
}

proof fn lemma_plain_columns(w: TabsView, state: StateView, k: int)
    requires
        0 <= k <= drawn_tabs(w, state).len(),
        is_plain(render_laws::run_together(drawn_tabs(w, state))),
        is_plain(drawn_before(w, state)),
        drawn_before(w, state).len() + render_laws::run_together(drawn_tabs(w, state)).len()
            <= usize::MAX,
    ensures
        column(w, state, k) == drawn_before(w, state).len() + render_laws::run_together(
            drawn_tabs(w, state).take(k),
        ).len(),
        k > 0 ==> is_plain(drawn_tabs(w, state)[k - 1]),
        k > 0 ==> drawn_tabs(w, state)[k - 1].len() <= usize::MAX,
    decreases k,
{
    let all = drawn_tabs(w, state);
    render_laws::law_widths(drawn_before(w, state), 0);
    if k == 0 {
        assert(all.take(0) =~= Seq::empty());
        assert(all.take(0).map_values(|text: Seq<char>| width::text_width(text) as nat)
            =~= Seq::empty());
    } else {
        lemma_plain_columns(w, state, k - 1);
        lemma_column(w, state, k - 1);
        let front = all.take(k - 1);
        let last = all[k - 1];
        render_laws::lemma_run_together(front, last);
        assert(all.take(k) =~= front.push(last));
        lemma_split(all, k);
        let text = render_laws::run_together(all);
        let at = render_laws::run_together(front).len();
        assert forall|i: int| 0 <= i < last.len() implies ' ' <= #[trigger] last[i] && last[i]
            <= '~' by {
            assert(text[at + i] == last[i]);
        }
        render_laws::law_widths(last, 0);
    }
}

proof fn lemma_split(texts: Seq<Seq<char>>, k: int)
    requires
        0 <= k <= texts.len(),
    ensures
        render_laws::run_together(texts) == render_laws::run_together(texts.take(k))
            + render_laws::run_together(texts.skip(k)),
    decreases k,
{
    if k == 0 {
        assert(texts.take(0) =~= Seq::empty());
        assert(texts.skip(0) =~= texts);
        assert(render_laws::run_together(texts) =~= render_laws::run_together(texts.take(k))
            + render_laws::run_together(texts.skip(k)));
    } else {
        lemma_split(texts.skip(1), k - 1);
        assert(texts.skip(1).skip(k - 1) =~= texts.skip(k));
        assert(texts.take(k).skip(1) =~= texts.skip(1).take(k - 1));
        assert(render_laws::run_together(texts) =~= render_laws::run_together(texts.take(k))
            + render_laws::run_together(texts.skip(k)));
    }
}

proof fn lemma_tabs_width_of_plain(w: TabsView, state: StateView, i: int)
    requires
        ({
            let (start, end, limit) = w.layout(state);
            start <= i <= end
        }),
        is_plain(render_laws::run_together(drawn_tabs(w, state))),
        is_plain(drawn_before(w, state)),
        drawn_before(w, state).len() + render_laws::run_together(drawn_tabs(w, state)).len()
            <= usize::MAX,
    ensures
        ({
            let (start, end, limit) = w.layout(state);
            w.tabs_width(state, start, i, end, w.separator_text(), limit)
                == render_laws::run_together(drawn_tabs(w, state).take(i - start)).len()
        }),
    decreases i - w.layout(state).0,
{
    let (start, end, limit) = w.layout(state);
    layout::law_layout(w, state);
    let all = drawn_tabs(w, state);
    if start < i {
        lemma_tabs_width_of_plain(w, state, i - 1);
        let k = i - start;
        lemma_plain_columns(w, state, k);
        let last = all[k - 1];
        render_laws::lemma_run_together(all.take(k - 1), last);
        assert(all.take(k) =~= all.take(k - 1).push(last));
        let text = w.text_at(state, i - 1, limit);
        assert(start + (k - 1) == i - 1);
        assert forall|j: int| 0 <= j < text.len() implies ' ' <= #[trigger] text[j] && text[j]
            <= '~' by {
            assert(last[j] == text[j]);
        }
        render_laws::law_widths(text, 0);
        if i < end {
            let separator = w.separator_text();
            assert forall|j: int| 0 <= j < separator.len() implies ' ' <= #[trigger] separator[j]
                && separator[j] <= '~' by {
                assert(last[text.len() + j] == separator[j]);
            }
            render_laws::law_widths(separator, 0);
        }
    } else {
        assert(all.take(0) =~= Seq::empty());
    }
}

/// The tabs that a click switches to where the marker on the right is taken to begin at the column
/// `from`: the tab behind the focused one, or the last one, if the click is not beyond the marker.
pub open spec fn clicked_behind(
    w: TabsView,
    state: StateView,
    focused: usize,
    from: nat,
    pos: usize,
) -> Seq<u32> {
    let (start, end, limit) = w.layout(state);
    if end < state.tabs.len() && pos <= from + width::text_width(drawn_behind(w, state)) {
        if focused + 1 < state.tabs.len() {
            seq![(focused + 2) as u32]
        } else {
            seq![state.tabs.len() as u32]
        }
    } else {
        Seq::empty()
    }
}

/// A click on the column `pos` switches to the tab that is drawn at that column, if one is. Before
/// that it switches to the tab before the focused one if it is on the marker on the left or just
/// behind it; and after that to the tab behind the focused one if it is not beyond the marker on
/// the right. That marker is taken to begin where the tab begins that was clicked on or, if none
/// was, behind the last one. The tab at the index `active` is the first focused one.
pub proof fn law_clicks(w: TabsView, state: StateView, active: int, pos: usize)
    requires
        0 <= active < state.tabs.len(),
        state.tabs[active].active,
        forall|j: int| 0 <= j < active ==> !(#[trigger] state.tabs[j]).active,
    ensures
        ({
            let (start, end, limit) = w.layout(state);
            let focused = state.tabs[active].position;
            let before = if start > 0 && pos <= width::text_width(drawn_before(w, state)) {
                seq![focused as u32]
            } else {
                Seq::empty()
            };
            &&& forall|k: int|
                0 <= k < end - start && #[trigger] column(w, state, k) <= pos < column(
                    w,
                    state,
                    k,
                ) + width::text_width(drawn_tabs(w, state)[k]) ==> w.clicks(state, pos) == before
                    + seq![bar::tab_number(state.tabs[start + k].position)] + clicked_behind(
                    w,
                    state,
                    focused,
                    column(w, state, k),
                    pos,
                )
            &&& (forall|k: int|
                0 <= k < end - start ==> !(#[trigger] column(w, state, k) <= pos < column(
                    w,
                    state,
                    k,
                ) + width::text_width(drawn_tabs(w, state)[k]))) ==> w.clicks(state, pos) == before
                + clicked_behind(w, state, focused, column(w, state, end - start), pos)
        }),
{
    let (start, end, limit) = w.layout(state);
    layout::law_layout(w, state);
    window::law_window_is_centered(state.tabs, 0, active);
    search::lemma_first_at(state.tabs, window::focused(), 0);
    assert(window::focused()(state.tabs[active]));
    let focused = state.tabs[active].position;
    let lead = w.lead_width(start);
    let widths = w.cell_widths(state, start, end, limit);
    let positions = bar::positions_of(state.tabs.subrange(start, end));
    let before = if start > 0 && pos <= width::text_width(drawn_before(w, state)) {
        seq![focused as u32]
    } else {
        Seq::empty()
    };
    assert forall|k: int|
        0 <= k < end - start && #[trigger] column(w, state, k) <= pos < column(w, state, k)
            + width::text_width(drawn_tabs(w, state)[k]) implies w.clicks(state, pos) == before
        + seq![bar::tab_number(state.tabs[start + k].position)] + clicked_behind(
        w,
        state,
        focused,
        column(w, state, k),
        pos,
    ) by {
        lemma_edge(w, state, k);
        lemma_edge(w, state, k + 1);
        lemma_column(w, state, k);
        assert(bar::covers(lead, widths, k, pos));
        bar::lemma_cell_under(lead, widths, 0, k, pos);
        assert(positions[k] == state.tabs[start + k].position);
        assert(w.clicks(state, pos) =~= before + seq![
            bar::tab_number(state.tabs[start + k].position),
        ] + clicked_behind(w, state, focused, column(w, state, k), pos));
    }
    if forall|k: int|
        0 <= k < end - start ==> !(#[trigger] column(w, state, k) <= pos < column(w, state, k)
            + width::text_width(drawn_tabs(w, state)[k])) {
        assert forall|k: int| 0 <= k < widths.len() implies !#[trigger] bar::covers(
            lead,
            widths,
            k,
            pos,
        ) by {
            lemma_edge(w, state, k);
            lemma_edge(w, state, k + 1);
            lemma_column(w, state, k);
        }
        lemma_none_under(lead, widths, 0, pos);
        lemma_edge(w, state, end - start);
        assert(w.clicks(state, pos) =~= before + clicked_behind(
            w,
            state,
            focused,
            column(w, state, end - start),
            pos,
        ));
    }
}

proof fn lemma_none_under(lead: Option<usize>, widths: Seq<usize>, i: int, pos: usize)
    requires
        0 <= i,
        forall|k: int| 0 <= k < widths.len() ==> !#[trigger] bar::covers(lead, widths, k, pos),
    ensures
        bar::cell_under(lead, widths, i, pos) is None,
    decreases widths.len() - i,
{
    if i < widths.len() {
        lemma_none_under(lead, widths, i + 1, pos);
    }
}

/// Tabs are numbered from 1 on, and their positions from 0 on.
pub proof fn law_tab_numbers(position: usize)
    ensures
        position < u32::MAX ==> bar::tab_number(position) == position + 1,
{
}

/// Tabs whose positions fit into 32 bits have different numbers if they have different positions.
pub proof fn law_different_tab_numbers(position: usize, other: usize)
    requires
        position <= u32::MAX,
        other <= u32::MAX,
    ensures
        bar::tab_number(position) == bar::tab_number(other) ==> position == other,
{
}

} // verus!

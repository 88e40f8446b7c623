//! The text of the bar, and what a click on it does.

use vstd::prelude::*;
use vstd::string::*;

use crate::data::TabView;
use crate::search;
use crate::state::{StateView, ZellijState};
use crate::widgets::layout;
use crate::widgets::tabs::{TabsView, TabsWidget};
use crate::widgets::widget::Widget;
use crate::width;
use crate::window;
use crate::window::find_active;

verus! {

/// The number that the multiplexer knows the tab at `position` by: positions are counted from 0,
/// tabs from 1, and both within 32 bits.
pub open spec fn tab_number(position: usize) -> u32 {
    if position as u32 == u32::MAX {
        0
    } else {
        (position as u32 + 1) as u32
    }
}

/// The number of the tab behind the one at `position`, or of the last of `count` tabs.
pub open spec fn next_number(position: usize, count: nat) -> u32 {
    if position + 2 <= count {
        (position + 2) as u32
    } else {
        count as u32
    }
}

/// The column at which the cell `i` of those with the widths `widths` begins, behind a marker that
/// is `lead` columns wide.
pub open spec fn edge(lead: Option<usize>, widths: Seq<usize>, i: int) -> nat
    decreases i,
{
    if i <= 0 {
        match lead {
            Some(w) => w as nat,
            None => 0,
        }
    } else {
        edge(lead, widths, i - 1) + widths[i - 1] as nat
    }
}

/// Whether the column `pos` belongs to the cell `i`.
pub open spec fn covers(lead: Option<usize>, widths: Seq<usize>, i: int, pos: usize) -> bool {
    edge(lead, widths, i) <= pos < edge(lead, widths, i + 1)
}

/// The cell that the column `pos` belongs to, among those from `i` on.
pub open spec fn cell_under(lead: Option<usize>, widths: Seq<usize>, i: int, pos: usize) -> Option<
    int,
>
    decreases widths.len() - i,
{
    if i >= widths.len() {
        None
    } else if covers(lead, widths, i, pos) {
        Some(i)
    } else {
        cell_under(lead, widths, i + 1, pos)
    }
}

/// The tabs that a click on the column `pos` switches to, one after the other.
///
/// A click on the left marker, or on the column behind it, goes to the tab left of the focused
/// one; a click on a tab goes to that tab. A click up to the end of the right marker goes to the
/// tab right of the focused one; the marker is taken to begin where the tab that was clicked on
/// begins or, if none was, behind the last tab.
pub open spec fn targets(
    lead: Option<usize>,
    widths: Seq<usize>,
    positions: Seq<usize>,
    trail: Option<usize>,
    active: usize,
    count: nat,
    pos: usize,
) -> Seq<u32> {
    let hit = cell_under(lead, widths, 0, pos);
    let reached = match hit {
        Some(i) => edge(lead, widths, i),
        None => edge(lead, widths, widths.len() as int),
    };
    (if lead is Some && pos <= lead->0 {
        seq![active as u32]
    } else {
        Seq::empty()
    }) + (match hit {
        Some(i) => seq![tab_number(positions[i])],
        None => Seq::empty(),
    }) + (if trail is Some && pos <= reached + trail->0 {
        seq![next_number(active, count)]
    } else {
        Seq::empty()
    })
}

impl TabsView {
    /// What stands at index `i` of a window that reaches to `end`: the text of the tab and, where
    /// another one follows, the separator.
    pub open spec fn cell(self, state: StateView, i: int, end: int, limit: Option<usize>) -> Seq<
        char,
    > {
        if i + 1 < end {
            self.text_at(state, i, limit) + self.separator_text()
        } else {
            self.text_at(state, i, limit)
        }
    }

    /// The text of the tabs `start..i` of a window that reaches to `end`.
    pub open spec fn cells(
        self,
        state: StateView,
        start: int,
        i: int,
        end: int,
        limit: Option<usize>,
    ) -> Seq<char>
        decreases i - start,
    {
        if i <= start {
            Seq::empty()
        } else {
            self.cells(state, start, i - 1, end, limit) + self.cell(state, i - 1, end, limit)
        }
    }

    /// What stands left of the first tab.
    pub open spec fn lead(self, start: int) -> Seq<char> {
        if start > 0 {
            self.start_marker(start as nat)
        } else {
            Seq::empty()
        }
    }

    /// What stands right of the last tab.
    pub open spec fn trail(self, hidden: int) -> Seq<char> {
        if hidden > 0 {
            self.end_marker(hidden as nat)
        } else {
            Seq::empty()
        }
    }

    /// The text of the bar.
    pub open spec fn bar_text(self, state: StateView) -> Seq<char> {
        let (start, end, limit) = self.layout(state);
        self.lead(start) + self.cells(state, start, end, end, limit) + self.trail(
            state.tabs.len() - end,
        )
    }

    /// The widths of what stands at the indices `start..end` of a window.
    pub open spec fn cell_widths(
        self,
        state: StateView,
        start: int,
        end: int,
        limit: Option<usize>,
    ) -> Seq<usize> {
        Seq::new(
            (end - start) as nat,
            |k: int| width::text_width(self.cell(state, start + k, end, limit)),
        )
    }

    /// The width of the marker on the left, where there is one.
    pub open spec fn lead_width(self, start: int) -> Option<usize> {
        if start > 0 {
            Some(width::text_width(self.start_marker(start as nat)))
        } else {
            None
        }
    }

    /// The width of the marker on the right, where there is one.
    pub open spec fn trail_width(self, hidden: int) -> Option<usize> {
        if hidden > 0 {
            Some(width::text_width(self.end_marker(hidden as nat)))
        } else {
            None
        }
    }

    /// The tabs that a click on the column `pos` switches to, one after the other. Without a
    /// focused tab, there is none.
    pub open spec fn clicks(self, state: StateView, pos: usize) -> Seq<u32> {
        match search::first(state.tabs, window::focused()) {
            Some(active) => {
                let (start, end, limit) = self.layout(state);
                targets(
                    self.lead_width(start),
                    self.cell_widths(state, start, end, limit),
                    positions_of(state.tabs.subrange(start, end)),
                    self.trail_width(state.tabs.len() - end),
                    active.position,
                    state.tabs.len(),
                    pos,
                )
            },
            None => Seq::empty(),
        }
    }
}

/// The positions of tabs.
pub open spec fn positions_of(tabs: Seq<TabView>) -> Seq<usize> {
    tabs.map_values(|t: TabView| t.position)
}

proof fn lemma_edges_ascend(lead: Option<usize>, widths: Seq<usize>, i: int, j: int)
    requires
        0 <= i <= j,
    ensures
        edge(lead, widths, i) <= edge(lead, widths, j),
    decreases j - i,
{
    if i < j {
        lemma_edges_ascend(lead, widths, i, j - 1);
    }
}

pub proof fn lemma_cell_under(lead: Option<usize>, widths: Seq<usize>, i: int, k: int, pos: usize)
    requires
        0 <= i <= k < widths.len(),
        covers(lead, widths, k, pos),
    ensures
        cell_under(lead, widths, i, pos) == Some(k),
    decreases widths.len() - i,
{
    if i < k {
        lemma_edges_ascend(lead, widths, i + 1, k);
        lemma_cell_under(lead, widths, i + 1, k, pos);
    }
}

/// A click on a column that belongs to a shown tab switches to that tab, wherever the focus is;
/// and where all tabs are shown, it does nothing else.
pub proof fn law_click_switches(w: TabsView, state: StateView, i: int, pos: usize)
    requires
        search::first(state.tabs, window::focused()) is Some,
        ({
            let (start, end, limit) = w.layout(state);
            &&& start <= i < end
            &&& covers(
                w.lead_width(start),
                w.cell_widths(state, start, end, limit),
                i - start,
                pos,
            )
        }),
    ensures
        w.clicks(state, pos).contains(tab_number(state.tabs[i].position)),
        ({
            let (start, end, limit) = w.layout(state);
            start == 0 && end == state.tabs.len()
        }) ==> w.clicks(state, pos) == seq![tab_number(state.tabs[i].position)],
{
    let (start, end, limit) = w.layout(state);
    layout::law_layout(w, state);
    let lead = w.lead_width(start);
    let widths = w.cell_widths(state, start, end, limit);
    lemma_cell_under(lead, widths, 0, i - start, pos);
    let positions = positions_of(state.tabs.subrange(start, end));
    assert(positions[i - start] == state.tabs[i].position);
    let clicks = w.clicks(state, pos);
    let at: int = if lead is Some && pos <= lead->0 {
        1
    } else {
        0
    };
    assert(clicks[at] == tab_number(state.tabs[i].position));
    if start == 0 && end == state.tabs.len() {
        assert(clicks =~= seq![tab_number(state.tabs[i].position)]);
    }
}

/// Without a focused tab, a click switches to nothing.
pub proof fn law_click_needs_focus(w: TabsView, state: StateView, pos: usize)
    requires
        forall|i: int| 0 <= i < state.tabs.len() ==> !(#[trigger] state.tabs[i]).active,
    ensures
        w.clicks(state, pos) == Seq::<u32>::empty(),
{
    search::lemma_first_at(state.tabs, window::focused(), 0);
}

/// The tabs that a click on the column `pos` switches to, one after the other, in a bar whose
/// markers are `lead` and `trail` columns wide, where there are any, and whose tabs are `widths`
/// columns wide and stand at `positions`. The focused tab stands at `active`, and there are
/// `count` tabs.
pub fn click_targets(
    lead: Option<usize>,
    widths: &Vec<usize>,
    positions: &Vec<usize>,
    trail: Option<usize>,
    active: usize,
    count: usize,
    pos: usize,
) -> (r: Vec<u32>)
    requires
        widths@.len() == positions@.len(),
    ensures
        r@ == targets(lead, widths@, positions@, trail, active, count as nat, pos),
{
    let mut r: Vec<u32> = Vec::new();
    let mut offset: u128 = 0;
    if let Some(w) = lead {
        offset = w as u128;
        if pos <= w {
            r.push(active as u32);
        }
    }
    let mut hit: Option<usize> = None;
    let mut i: usize = 0;
    while i < widths.len() && hit.is_none()
        invariant
            i <= widths.len(),
            offset <= (i + 1) * 0xffff_ffff_ffff_ffff,
            offset == edge(
                lead,
                widths@,
                match hit {
                    Some(k) => k as int,
                    None => i as int,
                },
            ),
            hit is Some ==> hit->0 < widths@.len(),
            cell_under(lead, widths@, 0, pos) == (match hit {
                Some(k) => Some(k as int),
                None => cell_under(lead, widths@, i as int, pos),
            }),
        decreases widths@.len() - i,
    {
        let content_len: u128 = widths[i] as u128;
        if offset <= pos as u128 && (pos as u128) < offset + content_len {
            hit = Some(i);
        } else {
            offset = offset + content_len;
        }
        i = i + 1;
    }
    if let Some(k) = hit {
        r.push((positions[k] as u32).wrapping_add(1));
    }
    if let Some(w) = trail {
        if pos as u128 <= offset + w as u128 {
            if count >= 2 && active <= count - 2 {
                r.push((active + 2) as u32);
            } else {
                r.push(count as u32);
            }
        }
    }
    assert(r@ =~= targets(lead, widths@, positions@, trail, active, count as nat, pos));
    r
}

impl TabsWidget {
    fn render_cell(&self, state: &ZellijState, i: usize, end: usize, limit: Option<usize>) -> (r:
        String)
        requires
            i < end <= state.tabs@.len(),
        ensures
            r@ == self@.cell(state@, i as int, end as int, limit),
    {
        let mut out = self.render_at(state, i, limit);
        if i + 1 < end {
            out.append(self.separator_string().as_str());
        }
        out
    }
}

impl Widget for TabsWidget {
    /// The text of the bar.
    fn process(&self, _name: &str, state: &ZellijState) -> (output: String)
        ensures
            output@ == self@.bar_text(state@),
    {
        let layout = self.tab_render_layout(state);
        let start: usize = layout.window_start;
        let end: usize = layout.window_end;
        let limit = layout.name_width_limit;
        let truncated_end: usize = state.tabs.len() - end;
        let mut output = String::new();
        if start > 0 {
            output.append(self.render_truncate_start(start).as_str());
        }
        let ghost lead = output@;
        assert(lead =~= self@.lead(start as int));
        let mut i: usize = start;
        assert(output@ =~= lead + self@.cells(state@, start as int, i as int, end as int, limit));
        while i < end
            invariant
                start <= i <= end <= state.tabs@.len(),
                output@ == lead + self@.cells(state@, start as int, i as int, end as int, limit),
            decreases end - i,
        {
            output.append(self.render_cell(state, i, end, limit).as_str());
            assert(output@ =~= lead + self@.cells(
                state@,
                start as int,
                i + 1,
                end as int,
                limit,
            ));
            i = i + 1;
        }
        if truncated_end > 0 {
            output.append(self.render_truncate_end(truncated_end).as_str());
        }
        assert(output@ =~= self@.bar_text(state@));
        output
    }

    /// The tabs that a click on the column `pos` switches to, one after the other.
    fn process_click(&self, _name: &str, state: &ZellijState, pos: usize) -> (clicks: Vec<u32>)
        ensures
            clicks@ == self@.clicks(state@, pos),
    {
        let layout = self.tab_render_layout(state);
        let start: usize = layout.window_start;
        let end: usize = layout.window_end;
        let limit = layout.name_width_limit;
        let truncated_end: usize = state.tabs.len() - end;
        let active: usize = match find_active(&state.tabs) {
            Some(i) => state.tabs[i].position,
            None => {
                return Vec::new();
            },
        };
        let lead: Option<usize> = if start > 0 {
            Some(width::measure_text_width(self.render_truncate_start(start).as_str()))
        } else {
            None
        };
        let mut widths: Vec<usize> = Vec::new();
        let mut positions: Vec<usize> = Vec::new();
        let ghost all_widths = self@.cell_widths(state@, start as int, end as int, limit);
        let ghost all_positions = positions_of(state@.tabs.subrange(start as int, end as int));
        let mut i: usize = start;
        while i < end
            invariant
                start <= i <= end <= state.tabs@.len(),
                all_widths == self@.cell_widths(state@, start as int, end as int, limit),
                all_positions == positions_of(state@.tabs.subrange(start as int, end as int)),
                widths@ == all_widths.take(i - start),
                positions@ == all_positions.take(i - start),
            decreases end - i,
        {
            let rendered = self.render_cell(state, i, end, limit);
            widths.push(width::measure_text_width(rendered.as_str()));
            positions.push(state.tabs[i].position);
            assert(state@.tabs[i as int] == state.tabs@[i as int]@);
            assert(widths@ =~= all_widths.take(i + 1 - start));
            assert(positions@ =~= all_positions.take(i + 1 - start));
            i = i + 1;
        }
        assert(widths@ =~= all_widths);
        assert(positions@ =~= all_positions);
        let trail: Option<usize> = if truncated_end > 0 {
            Some(width::measure_text_width(self.render_truncate_end(truncated_end).as_str()))
        } else {
            None
        };
        click_targets(lead, &widths, &positions, trail, active, state.tabs.len(), pos)
    }
}

} // verus!

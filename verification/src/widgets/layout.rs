//! Which tabs are shown, and how much of their names, so that the bar is not too wide.

use vstd::prelude::*;

use crate::state::{StateView, ZellijState};
use crate::tab_name;
use crate::tab_name::resolve_tab_name;
use crate::widgets::tabs;
use crate::widgets::tabs::{TabsView, TabsWidget};
use crate::width;
use crate::window;
use crate::window::{find_active, get_tab_window_indices};

verus! {

/// The tabs that are shown, and the width that their names are limited to.
#[derive(Clone, Copy, Debug, PartialEq, Eq, Structural)]
pub struct TabRenderLayout {
    /// The index of the first tab that is shown.
    pub window_start: usize,
    /// The index behind the last tab that is shown.
    pub window_end: usize,
    /// The width of a name, where it is limited.
    pub name_width_limit: Option<usize>,
}

impl StateView {
    /// The name that the tab at index `i` is shown under.
    pub open spec fn name_at(self, i: int) -> Seq<char> {
        tab_name::shown_name(
            self.tabs[i],
            self.panes,
            self.overrides,
            self.fallbacks,
            self.spinner_idx,
        )
    }
}

/// The window `start..end` without the tab at the end that is farther from the tab at index
/// `active`, where more than one tab is left and one of them can be left out.
pub open spec fn narrower(start: int, end: int, active: int) -> Option<(int, int)> {
    let left = if active > start {
        active - start
    } else {
        0
    };
    let right = if end > active + 1 {
        end - (active + 1)
    } else {
        0
    };
    if end - start <= 1 {
        None
    } else if left >= right && start < active {
        Some((start + 1, end))
    } else if right > 0 {
        Some((start, end - 1))
    } else {
        None
    }
}

/// The window `start..end` without the tab at the end that is farther from the tab at index
/// `active`, where more than one tab is left and one of them can be left out.
pub fn narrow_window(start: usize, end: usize, active: usize) -> (r: Option<(usize, usize)>)
    requires
        start <= end,
        active < usize::MAX,
    ensures
        match r {
            Some((first, last)) => narrower(start as int, end as int, active as int) == Some(
                (first as int, last as int),
            ),
            None => narrower(start as int, end as int, active as int) is None,
        },
{
    if end - start <= 1 {
        return None;
    }
    let left_distance: usize = if active > start {
        active - start
    } else {
        0
    };
    let right_distance: usize = if end > active + 1 {
        end - (active + 1)
    } else {
        0
    };
    if left_distance >= right_distance && start < active {
        Some((start + 1, end))
    } else if right_distance > 0 {
        Some((start, end - 1))
    } else {
        None
    }
}

impl TabsView {
    /// The text of the tab at index `i`.
    pub open spec fn text_at(self, state: StateView, i: int, limit: Option<usize>) -> Seq<char> {
        self.tab_text(state.tabs[i], state.panes, state.mode, state.name_at(i), limit)
    }

    /// The width of the tabs `start..i` of a window that reaches to `end`, each with the separator
    /// behind it.
    pub open spec fn tabs_width(
        self,
        state: StateView,
        start: int,
        i: int,
        end: int,
        separator: Seq<char>,
        limit: Option<usize>,
    ) -> nat
        decreases i - start,
    {
        if i <= start {
            0
        } else {
            self.tabs_width(state, start, i - 1, end, separator, limit) + width::text_width(
                self.text_at(state, i - 1, limit),
            ) as nat + (if i < end && separator.len() > 0 {
                width::text_width(separator) as nat
            } else {
                0nat
            })
        }
    }

    /// The width of the markers around a window.
    pub open spec fn markers_width(self, state: StateView, start: int, end: int) -> nat {
        (if start > 0 {
            width::text_width(self.start_marker(start as nat)) as nat
        } else {
            0nat
        }) + (if state.tabs.len() > end {
            width::text_width(self.end_marker((state.tabs.len() - end) as nat)) as nat
        } else {
            0nat
        })
    }

    /// The width of the window `start..end` where names are limited to `limit`.
    pub open spec fn window_width(
        self,
        state: StateView,
        start: int,
        end: int,
        separator: Seq<char>,
        limit: Option<usize>,
    ) -> nat {
        self.markers_width(state, start, end) + self.tabs_width(
            state,
            start,
            end,
            end,
            separator,
            limit,
        )
    }

    /// Whether the window fits into the bar where names are limited to a width.
    pub open spec fn fits(
        self,
        state: StateView,
        start: int,
        end: int,
        separator: Seq<char>,
    ) -> spec_fn(int) -> bool {
        |limit: int|
            self.window_width(state, start, end, separator, Some(limit as usize)) <= state.cols
    }

    /// The width of the widest name among the tabs `start..end`, but at least 1.
    pub open spec fn widest_name(self, state: StateView, start: int, end: int) -> int
        decreases end - start,
    {
        if end <= start {
            1
        } else {
            let before = self.widest_name(state, start, end - 1);
            let last = width::text_width(
                tabs::raw_name(state.tabs[end - 1], state.mode, state.name_at(end - 1)),
            ) as int;
            if last > before {
                last
            } else {
                before
            }
        }
    }

    /// How names have to be limited for the window to fit: `Some(None)` where they need no limit,
    /// and `None` where no limit is enough.
    pub open spec fn limit_for(
        self,
        state: StateView,
        start: int,
        end: int,
        separator: Seq<char>,
    ) -> Option<Option<usize>> {
        if self.window_width(state, start, end, separator, None) <= state.cols {
            Some(None)
        } else if self.window_width(state, start, end, separator, Some(1)) > state.cols {
            None
        } else {
            Some(
                Some(
                    halving(
                        self.fits(state, start, end, separator),
                        1,
                        self.widest_name(state, start, end),
                        1,
                    ) as usize,
                ),
            )
        }
    }

    /// The layout for the window `start..end`: the window itself where it can be made to fit, and
    /// otherwise the layout for the window without the tab at the end that is farther from the
    /// tab at index `active`. Where one tab is left, its name is limited to one column.
    pub open spec fn shrunk(
        self,
        state: StateView,
        start: int,
        end: int,
        active: int,
        separator: Seq<char>,
    ) -> (int, int, Option<usize>)
        decreases end - start,
    {
        match self.limit_for(state, start, end, separator) {
            Some(limit) => (start, end, limit),
            None => match narrower(start, end, active) {
                Some((first, last)) => self.shrunk(state, first, last, active, separator),
                None => (start, end, Some(1)),
            },
        }
    }

    /// The layout of the bar. A bar whose width is not known yet shows its window as it is.
    pub open spec fn layout(self, state: StateView) -> (int, int, Option<usize>) {
        if state.tabs.len() == 0 {
            (0, 0, None)
        } else {
            let (start, end) = window::window_of(state.tabs, self.display_count);
            if state.cols == 0 {
                (start, end, None)
            } else {
                self.shrunk(
                    state,
                    start,
                    end,
                    window::active_index(state.tabs),
                    self.separator_text(),
                )
            }
        }
    }
}

/// The number that a search by halving arrives at, among those from `low` to `high` that `fits`
/// holds for. `best` is what it has so far.
pub open spec fn halving(fits: spec_fn(int) -> bool, low: int, high: int, best: int) -> int
    decreases high - low + 1,
{
    if low > high {
        best
    } else {
        let mid = low + (high - low) / 2;
        if fits(mid) {
            halving(fits, mid + 1, high, mid)
        } else {
            halving(fits, low, mid - 1, best)
        }
    }
}

/// The search ends at a number that fits and that the next one, where there is one, does not.
/// Where no number fits that is greater than one that does not, it is the greatest that fits.
pub proof fn lemma_halving(fits: spec_fn(int) -> bool, low: int, high: int, best: int, top: int)
    requires
        1 <= best <= high <= top,
        low == best + 1 || (low == 1 && best == 1),
        low <= high + 1,
        fits(best),
        high < top ==> !fits(high + 1),
    ensures
        ({
            let r = halving(fits, low, high, best);
            &&& best <= r <= top
            &&& fits(r)
            &&& r < top ==> !fits(r + 1)
        }),
    decreases high - low + 1,
{
    if low <= high {
        let mid = low + (high - low) / 2;
        if fits(mid) {
            lemma_halving(fits, mid + 1, high, mid, top);
        } else {
            lemma_halving(fits, low, mid - 1, best, top);
        }
    }
}

/// No name among the tabs `start..end` is wider than the widest one.
proof fn lemma_widest_name(w: TabsView, state: StateView, start: int, end: int, i: int)
    requires
        start <= i < end,
    ensures
        w.widest_name(state, start, end) <= usize::MAX,
        w.widest_name(state, start, end) >= 1,
        width::text_width(tabs::raw_name(state.tabs[i], state.mode, state.name_at(i)))
            <= w.widest_name(state, start, end),
    decreases end - start,
{
    if i < end - 1 {
        lemma_widest_name(w, state, start, end - 1, i);
    } else if start < end - 1 {
        lemma_widest_name(w, state, start, end - 1, start);
    } else {
        assert(w.widest_name(state, start, end - 1) == 1);
    }
}

proof fn lemma_wide_limit(
    w: TabsView,
    state: StateView,
    start: int,
    i: int,
    end: int,
    separator: Seq<char>,
    limit: usize,
)
    requires
        start <= i <= end,
        w.widest_name(state, start, end) <= limit,
    ensures
        w.tabs_width(state, start, i, end, separator, Some(limit)) == w.tabs_width(
            state,
            start,
            i,
            end,
            separator,
            None,
        ),
    decreases i - start,
{
    if start < i {
        lemma_wide_limit(w, state, start, i - 1, end, separator, limit);
        lemma_widest_name(w, state, start, end, i - 1);
    }
}

/// A limit that no name is wider than changes nothing.
pub proof fn law_wide_limit(
    w: TabsView,
    state: StateView,
    start: int,
    end: int,
    separator: Seq<char>,
    limit: usize,
)
    requires
        start <= end,
        w.widest_name(state, start, end) <= limit,
    ensures
        w.window_width(state, start, end, separator, Some(limit)) == w.window_width(
            state,
            start,
            end,
            separator,
            None,
        ),
{
    lemma_wide_limit(w, state, start, end, end, separator, limit);
}

/// The window `start..end` fits under the limit that is found for it, and no longer under the next
/// one. Where no limit fits that is greater than one that does not, it is the greatest that fits.
pub proof fn law_limit(w: TabsView, state: StateView, start: int, end: int, separator: Seq<char>)
    requires
        start <= end,
    ensures
        match w.limit_for(state, start, end, separator) {
            Some(None) => w.window_width(state, start, end, separator, None) <= state.cols,
            Some(Some(n)) => {
                let fits = w.fits(state, start, end, separator);
                &&& 1 <= n < w.widest_name(state, start, end)
                &&& w.window_width(state, start, end, separator, None) > state.cols
                &&& w.window_width(state, start, end, separator, Some(n)) <= state.cols
                &&& w.window_width(state, start, end, separator, Some((n + 1) as usize))
                    > state.cols
                &&& (forall|a: int, b: int| a <= b && #[trigger] fits(b) ==> #[trigger] fits(a))
                    ==> forall|m: int|
                    n < m <= w.widest_name(state, start, end) ==> !#[trigger] fits(m)
            },
            None => w.window_width(state, start, end, separator, Some(1)) > state.cols,
        },
{
    if let Some(Some(n)) = w.limit_for(state, start, end, separator) {
        let fits = w.fits(state, start, end, separator);
        let top = w.widest_name(state, start, end);
        if start < end {
            lemma_widest_name(w, state, start, end, start);
        }
        assert(fits(1));
        law_wide_limit(w, state, start, end, separator, top as usize);
        assert(!fits(top));
        lemma_halving(fits, 1, top, 1, top);
        assert(fits(n as int));
        assert(!fits(n + 1));
    }
}

proof fn lemma_shrunk(
    w: TabsView,
    state: StateView,
    start: int,
    end: int,
    active: int,
    separator: Seq<char>,
)
    requires
        start <= active < end || start == end,
    ensures
        ({
            let (first, last, limit) = w.shrunk(state, start, end, active, separator);
            &&& start <= first <= last <= end
            &&& start < end ==> first <= active < last
            &&& {
                ||| w.window_width(state, first, last, separator, limit) <= state.cols
                ||| last - first <= 1 && limit == Some(1usize)
            }
        }),
    decreases end - start,
{
    law_limit(w, state, start, end, separator);
    if w.limit_for(state, start, end, separator) is None && end - start > 1 {
        let left = active - start;
        let right = end - (active + 1);
        if left >= right && start < active {
            lemma_shrunk(w, state, start + 1, end, active, separator);
        } else {
            lemma_shrunk(w, state, start, end - 1, active, separator);
        }
    }
}

/// The layout shows a part of the window of tabs that the configuration allows. The focused tab is
/// in it as soon as a tab may be shown at all. Where the width of the bar is known, what is shown
/// is no wider than the bar, unless not even one tab with a name of one column fits.
pub proof fn law_layout(w: TabsView, state: StateView)
    ensures
        ({
            let (first, last, limit) = w.layout(state);
            let (start, end) = window::window_of(state.tabs, w.display_count);
            &&& start <= first <= last <= end <= state.tabs.len()
            &&& (state.tabs.len() > 0 && w.display_count != Some(0usize)) ==> first
                <= window::active_index(state.tabs) < last
            &&& (state.tabs.len() > 0 && state.cols > 0) ==> {
                ||| w.window_width(state, first, last, w.separator_text(), limit) <= state.cols
                ||| last - first <= 1 && limit == Some(1usize)
            }
        }),
{
    window::law_window(state.tabs, w.display_count);
    window::lemma_active_index(state.tabs);
    if state.tabs.len() > 0 && state.cols > 0 {
        let (start, end) = window::window_of(state.tabs, w.display_count);
        lemma_shrunk(
            w,
            state,
            start,
            end,
            window::active_index(state.tabs),
            w.separator_text(),
        );
    }
}

/// Whether `sum` is `total`, as far as a `usize` can hold it.
pub open spec fn sums_to(sum: Option<usize>, total: nat) -> bool {
    match sum {
        Some(n) => n == total,
        None => total > usize::MAX,
    }
}

fn plus(sum: Option<usize>, n: usize) -> (r: Option<usize>)
    ensures
        forall|total: nat| sums_to(sum, total) ==> #[trigger] sums_to(r, total + n as nat),
{
    match sum {
        Some(m) => m.checked_add(n),
        None => None,
    }
}

impl TabsWidget {
    /// The text of the tab at index `i`.
    pub fn render_at(&self, state: &ZellijState, i: usize, limit: Option<usize>) -> (r: String)
        requires
            i < state.tabs@.len(),
        ensures
            r@ == self@.text_at(state@, i as int, limit),
    {
        let tab = &state.tabs[i];
        assert(state@.tabs[i as int] == tab@);
        let display_name = resolve_tab_name(
            tab,
            &state.panes,
            &state.tab_name_overrides,
            &state.tab_name_fallbacks,
            state.spinner_idx,
        );
        self.render_tab(tab, &state.panes, &state.mode, display_name.as_str(), limit)
    }

    /// The width of the window `start..end`; `None` where it is more than a `usize` can hold.
    pub fn window_render_width(
        &self,
        state: &ZellijState,
        start: usize,
        end: usize,
        separator: &str,
        name_width_limit: Option<usize>,
    ) -> (r: Option<usize>)
        requires
            start <= end <= state.tabs@.len(),
        ensures
            sums_to(
                r,
                self@.window_width(
                    state@,
                    start as int,
                    end as int,
                    separator@,
                    name_width_limit,
                ),
            ),
    {
        let mut width: Option<usize> = Some(0);
        let ghost mut total: nat = 0;
        if start > 0 {
            width =
            plus(width, width::measure_text_width(self.render_truncate_start(start).as_str()));
            proof {
                total = width::text_width(self@.start_marker(start as nat)) as nat;
                assert(sums_to(width, 0 + total));
            }
        }
        if state.tabs.len() > end {
            let marker = self.render_truncate_end(state.tabs.len() - end);
            let ghost before = total;
            width = plus(width, width::measure_text_width(marker.as_str()));
            proof {
                total = before + width::text_width(marker@) as nat;
                assert(sums_to(width, total));
            }
        }
        assert(total == self@.markers_width(state@, start as int, end as int));
        let mut i: usize = start;
        while i < end
            invariant
                start <= i <= end <= state.tabs@.len(),
                total == self@.markers_width(state@, start as int, end as int),
                sums_to(
                    width,
                    total + self@.tabs_width(
                        state@,
                        start as int,
                        i as int,
                        end as int,
                        separator@,
                        name_width_limit,
                    ),
                ),
            decreases end - i,
        {
            let ghost before = total + self@.tabs_width(
                state@,
                start as int,
                i as int,
                end as int,
                separator@,
                name_width_limit,
            );
            let rendered = self.render_at(state, i, name_width_limit);
            width = plus(width, width::measure_text_width(rendered.as_str()));
            let ghost with_tab = before + width::text_width(rendered@) as nat;
            assert(sums_to(width, with_tab));
            if i + 1 < end && !separator.is_empty() {
                width = plus(width, width::measure_text_width(separator));
                assert(sums_to(width, with_tab + width::text_width(separator@) as nat));
            }
            i = i + 1;
        }
        width
    }

    fn window_fits(
        &self,
        state: &ZellijState,
        start: usize,
        end: usize,
        separator: &str,
        limit: Option<usize>,
    ) -> (r: bool)
        requires
            start <= end <= state.tabs@.len(),
        ensures
            r == (self@.window_width(state@, start as int, end as int, separator@, limit)
                <= state.cols),
    {
        match self.window_render_width(state, start, end, separator, limit) {
            Some(width) => width <= state.cols,
            None => false,
        }
    }

    /// The width of the widest name among the tabs `start..end`, but at least 1.
    pub fn max_tab_name_width(&self, state: &ZellijState, start: usize, end: usize) -> (r: usize)
        requires
            start <= end <= state.tabs@.len(),
        ensures
            r == self@.widest_name(state@, start as int, end as int),
            r >= 1,
    {
        let mut max_width: usize = 1;
        let mut i: usize = start;
        while i < end
            invariant
                start <= i <= end <= state.tabs@.len(),
                max_width == self@.widest_name(state@, start as int, i as int),
                max_width >= 1,
            decreases end - i,
        {
            let tab = &state.tabs[i];
            assert(state@.tabs[i as int] == tab@);
            let display_name = resolve_tab_name(
                tab,
                &state.panes,
                &state.tab_name_overrides,
                &state.tab_name_fallbacks,
                state.spinner_idx,
            );
            let tab_name = self.raw_tab_name(tab, &state.mode, display_name.as_str());
            let width: usize = width::measure_text_width(tab_name);
            if width > max_width {
                max_width = width;
            }
            i = i + 1;
        }
        max_width
    }

    /// How names have to be limited for the window `start..end` to fit into the bar: `Some(None)`
    /// where they need no limit, and `None` where no limit is enough.
    pub fn resolve_name_width_limit(
        &self,
        state: &ZellijState,
        start: usize,
        end: usize,
        separator: &str,
    ) -> (r: Option<Option<usize>>)
        requires
            start <= end <= state.tabs@.len(),
        ensures
            r == self@.limit_for(state@, start as int, end as int, separator@),
    {
        if self.window_fits(state, start, end, separator, None) {
            return Some(None);
        }
        if !self.window_fits(state, start, end, separator, Some(1)) {
            return None;
        }
        let ghost fits = self@.fits(state@, start as int, end as int, separator@);
        let top: usize = self.max_tab_name_width(state, start, end);
        let mut low: usize = 1;
        let mut high: usize = top;
        let mut best: usize = 1;
        while low <= high
            invariant
                start <= end <= state.tabs@.len(),
                fits == self@.fits(state@, start as int, end as int, separator@),
                top == self@.widest_name(state@, start as int, end as int),
                self@.limit_for(state@, start as int, end as int, separator@) == Some(
                    Some(halving(fits, 1, top as int, 1) as usize),
                ),
                1 <= low,
                1 <= best,
                high <= top,
                halving(fits, 1, top as int, 1) == halving(
                    fits,
                    low as int,
                    high as int,
                    best as int,
                ),
            decreases high + 1 - low,
        {
            let mid: usize = low + (high - low) / 2;
            if self.window_fits(state, start, end, separator, Some(mid)) {
                assert(fits(mid as int));
                if mid == usize::MAX {
                    assert(halving(fits, mid + 1, high as int, mid as int) == mid);
                    return Some(Some(mid));
                }
                best = mid;
                low = mid + 1;
            } else {
                assert(!fits(mid as int));
                high = mid - 1;
            }
        }
        Some(Some(best))
    }

    /// The tabs that are shown, and the width that their names are limited to.
    pub fn tab_render_layout(&self, state: &ZellijState) -> (r: TabRenderLayout)
        ensures
            (r.window_start as int, r.window_end as int, r.name_width_limit) == self@.layout(
                state@,
            ),
            r.window_start <= r.window_end <= state.tabs@.len(),
    {
        assert(state@.tabs.len() == state.tabs@.len());
        if state.tabs.len() == 0 {
            return TabRenderLayout { window_start: 0, window_end: 0, name_width_limit: None };
        }
        let (base_start, base_end) = get_tab_window_indices(&state.tabs, self.display_count());
        if state.cols == 0 {
            return TabRenderLayout {
                window_start: base_start,
                window_end: base_end,
                name_width_limit: None,
            };
        }
        let separator = self.separator_string();
        let active: usize = match find_active(&state.tabs) {
            Some(i) => i,
            None => 0,
        };
        let mut start: usize = base_start;
        let mut end: usize = base_end;
        loop
            invariant
                start <= end <= state.tabs@.len(),
                active < state.tabs.len(),
                separator@ == self@.separator_text(),
                self@.layout(state@) == self@.shrunk(
                    state@,
                    start as int,
                    end as int,
                    active as int,
                    separator@,
                ),
            decreases end - start,
        {
            match self.resolve_name_width_limit(state, start, end, separator.as_str()) {
                Some(name_width_limit) => {
                    return TabRenderLayout {
                        window_start: start,
                        window_end: end,
                        name_width_limit,
                    };
                },
                None => {},
            }
            match narrow_window(start, end, active) {
                Some((first, last)) => {
                    start = first;
                    end = last;
                },
                None => {
                    return TabRenderLayout {
                        window_start: start,
                        window_end: end,
                        name_width_limit: Some(1),
                    };
                },
            }
        }
    }
}

} // verus!

//! The tabs that are shown where only so many may be.

use vstd::prelude::*;

use crate::data;
use crate::data::{TabInfo, TabView};
use crate::search;

verus! {

/// Whether a tab is the focused one.
pub open spec fn focused() -> spec_fn(TabView) -> bool {
    |t: TabView| t.active
}

/// The index of the focused tab; 0 where none is focused.
pub open spec fn active_index(tabs: Seq<TabView>) -> int {
    match search::first_at(tabs, focused(), 0) {
        Some(i) => i,
        None => 0,
    }
}

/// The window of `max_count` tabs around the focused one, as the index of its first tab and the
/// index behind its last. It holds as many tabs left of the focused one as right of it, one more
/// on the right where the number is even, and it is moved where it would reach over an end.
pub open spec fn window_of(tabs: Seq<TabView>, max_count: Option<usize>) -> (int, int) {
    match max_count {
        None => (0, tabs.len() as int),
        Some(max) => if tabs.len() <= max {
            (0, tabs.len() as int)
        } else {
            let left = if max == 0 {
                0
            } else {
                (max - 1) / 2
            };
            let first = if active_index(tabs) < left {
                0
            } else {
                active_index(tabs) - left
            };
            if first + max > tabs.len() {
                (tabs.len() - max, tabs.len() as int)
            } else {
                (first, first + max)
            }
        },
    }
}

/// The focused tab is among the tabs.
pub proof fn lemma_active_index(tabs: Seq<TabView>)
    ensures
        0 <= active_index(tabs),
        tabs.len() > 0 ==> active_index(tabs) < tabs.len(),
{
    search::lemma_first_at(tabs, focused(), 0);
}

/// A window lies within the tabs. It holds all tabs where there is room for them, and otherwise
/// exactly as many as there is room for; and the focused tab is among them as soon as there is
/// room for one.
pub proof fn law_window(tabs: Seq<TabView>, max_count: Option<usize>)
    ensures
        ({
            let (first, last) = window_of(tabs, max_count);
            &&& 0 <= first <= last <= tabs.len()
            &&& match max_count {
                None => last - first == tabs.len(),
                Some(max) => last - first == (if tabs.len() <= max {
                    tabs.len() as int
                } else {
                    max as int
                }),
            }
            &&& (tabs.len() > 0 && max_count != Some(0usize)) ==> first <= active_index(tabs)
                < last
        }),
{
    lemma_active_index(tabs);
}

/// Where there is no room for all tabs, the window lies around the tab at the index `active`, which
/// is the first focused one or, without one, the first tab of all: there are as many tabs on its
/// right as on its left, or one more. Only at the ends may one side be shorter than that. Without
/// any room, the window is empty, and lies at that tab.
pub proof fn law_window_is_centered(tabs: Seq<TabView>, max: usize, active: int)
    requires
        0 <= active < tabs.len(),
        forall|j: int| 0 <= j < active ==> !(#[trigger] tabs[j]).active,
        tabs[active].active || (active == 0 && forall|j: int|
            0 <= j < tabs.len() ==> !(#[trigger] tabs[j]).active),
    ensures
        active_index(tabs) == active,
        max < tabs.len() ==> {
            let (first, last) = window_of(tabs, Some(max));
            let left = active - first;
            let right = last - 1 - active;
            &&& last - first == max
            &&& max == 0 ==> first == active
            &&& max > 0 ==> first <= active < last
            &&& max > 0 && first > 0 && last < tabs.len() ==> left <= right <= left + 1
            &&& max > 0 && first == 0 ==> left <= right
            &&& max > 0 && last == tabs.len() ==> right <= left + 1
        },
{
    search::lemma_first_at(tabs, focused(), 0);
    match search::first_at(tabs, focused(), 0) {
        Some(i) => {
            assert(tabs[i].active);
            if i < active {
                assert(!tabs[i].active);
            } else if active < i {
                assert(tabs[active].active);
                assert(focused()(tabs[active]));
            }
        },
        None => {
            if tabs[active].active {
                assert(focused()(tabs[active]));
            }
        },
    }
}

/// The index of the focused tab, where one is focused.
pub fn find_active(tabs: &Vec<TabInfo>) -> (r: Option<usize>)
    ensures
        match r {
            Some(i) => search::first_at(data::tab_views(tabs@), focused(), 0) == Some(i as int) && i
                < tabs@.len(),
            None => search::first_at(data::tab_views(tabs@), focused(), 0) is None,
        },
{
    let ghost all = data::tab_views(tabs@);
    let mut i: usize = 0;
    while i < tabs.len()
        invariant
            i <= tabs@.len(),
            all == data::tab_views(tabs@),
            search::first_at(all, focused(), 0) == search::first_at(all, focused(), i as int),
        decreases tabs@.len() - i,
    {
        assert(all[i as int] == tabs@[i as int]@);
        if tabs[i].active {
            return Some(i);
        }
        i = i + 1;
    }
    None
}

/// The window of `max_count` tabs around the focused one.
pub fn get_tab_window_indices(tabs: &Vec<TabInfo>, max_count: Option<usize>) -> (r: (usize, usize))
    ensures
        (r.0 as int, r.1 as int) == window_of(data::tab_views(tabs@), max_count),
        r.0 <= r.1 <= tabs@.len(),
{
    proof {
        law_window(data::tab_views(tabs@), max_count);
        lemma_active_index(data::tab_views(tabs@));
    }
    let max_count: usize = match max_count {
        Some(count) => count,
        None => {
            return (0, tabs.len());
        },
    };
    if tabs.len() <= max_count {
        return (0, tabs.len());
    }
    let active: usize = match find_active(tabs) {
        Some(i) => i,
        None => 0,
    };
    let left_slots: usize = if max_count == 0 {
        0
    } else {
        (max_count - 1) / 2
    };
    let first: usize = if active < left_slots {
        0
    } else {
        active - left_slots
    };
    if max_count > tabs.len() - first {
        (tabs.len() - max_count, tabs.len())
    } else {
        (first, first + max_count)
    }
}

/// The tabs of the window of `max_count` tabs around the focused one, and how many tabs are left
/// out before them and behind them.
pub fn get_tab_window(tabs: &Vec<TabInfo>, max_count: Option<usize>) -> (r: (
    usize,
    usize,
    Vec<TabInfo>,
))
    ensures
        ({
            let (first, last) = window_of(data::tab_views(tabs@), max_count);
            &&& r.0 == first
            &&& r.1 == tabs@.len() - last
            &&& data::tab_views(r.2@) == data::tab_views(tabs@).subrange(first, last)
        }),
        r.0 + r.2@.len() + r.1 == tabs@.len(),
{
    let (first, last) = get_tab_window_indices(tabs, max_count);
    let ghost all = data::tab_views(tabs@);
    let mut shown: Vec<TabInfo> = Vec::new();
    let mut i: usize = first;
    while i < last
        invariant
            first <= i <= last <= tabs@.len(),
            all == data::tab_views(tabs@),
            data::tab_views(shown@) == all.subrange(first as int, i as int),
        decreases last - i,
    {
        let ghost before = shown@;
        shown.push(tabs[i].clone());
        assert(data::tab_views(shown@) =~= data::tab_views(before).push(all[i as int]));
        assert(all.subrange(first as int, i + 1) =~= all.subrange(first as int, i as int).push(
            all[i as int],
        ));
        i = i + 1;
    }
    assert(shown@.len() == data::tab_views(shown@).len());
    (first, tabs.len() - last, shown)
}

} // verus!

//! Titles that wait for their panes.

use vstd::prelude::*;

use crate::data::{PaneView, TabView};
use crate::ordered;
use crate::plugin::model;
use crate::plugin::model::{PendingTitle, PendingView, PluginView, State};
use crate::state::StateView;
use crate::tab_name;
use crate::titles;

verus! {

/// A title that waits for its pane.
pub open spec fn unplaced(tabs: Seq<TabView>, panes: Map<usize, Seq<PaneView>>) -> spec_fn(
    PendingView,
) -> bool {
    |e: PendingView| titles::located(tabs, panes, e.pane_id) is None
}

/// A title whose pane a list of panes holds, but at no known tab.
pub open spec fn astray(tabs: Seq<TabView>, panes: Map<usize, Seq<PaneView>>) -> spec_fn(
    PendingView,
) -> bool {
    |e: PendingView|
        titles::located(tabs, panes, e.pane_id) is None && titles::listed(panes, e.pane_id)
}

/// A title of another pane than `id`.
pub open spec fn of_others(id: u32) -> spec_fn(PendingView) -> bool {
    |e: PendingView| e.pane_id != id
}

/// `s` with a title for the tab at `position`, and with the project that goes with it, if any.
pub open spec fn titled(
    s: StateView,
    position: usize,
    id: u32,
    title: Seq<char>,
    project: Option<Seq<char>>,
) -> StateView {
    StateView {
        overrides: titles::put(s.overrides, position, id, title),
        fallbacks: match project {
            Some(f) => titles::put(s.fallbacks, position, id, f),
            None => s.fallbacks,
        },
        ..s
    }
}

/// `s` with the title `e` given to the tab that holds its pane, if there is one. An empty title
/// takes the one that the pane gave that tab away.
pub open spec fn settled_one(s: StateView, e: PendingView) -> StateView {
    match titles::located(s.tabs, s.panes, e.pane_id) {
        Some(position) => if e.title.len() == 0 {
            StateView { overrides: titles::without_at(s.overrides, position, e.pane_id), ..s }
        } else {
            titled(s, position, e.pane_id, e.title, e.project)
        },
        None => s,
    }
}

/// `s` with the titles `pending` given, one after another.
pub open spec fn settled(s: StateView, pending: Seq<PendingView>) -> StateView
    decreases pending.len(),
{
    if pending.len() == 0 {
        s
    } else {
        settled_one(settled(s, pending.drop_last()), pending.last())
    }
}

/// Whether a title of the pane `id` waits.
pub open spec fn waits(pending: Seq<PendingView>, id: u32) -> bool {
    exists|i: int| 0 <= i < pending.len() && (#[trigger] pending[i]).pane_id == id
}

impl StateView {
    /// The title of the pane `id` and its project, as they stand last.
    pub open spec fn last_entry(self, id: u32) -> PendingView {
        PendingView {
            pane_id: id,
            title: titles::last_text(self.overrides, id)->0,
            project: titles::last_text(self.fallbacks, id),
        }
    }
}

/// `strays` with the titles at `places` behind it whose panes a list of panes holds, but at no known
/// tab. A pane that has a title among them already gets no other.
pub open spec fn with_strays(
    s: StateView,
    strays: Seq<PendingView>,
    places: Seq<(usize, u32)>,
) -> Seq<PendingView>
    decreases places.len(),
{
    if places.len() == 0 {
        strays
    } else {
        let sofar = with_strays(s, strays, places.drop_last());
        let e = s.last_entry(places.last().1);
        if astray(s.tabs, s.panes)(e) && !waits(sofar, e.pane_id) {
            sofar.push(e)
        } else {
            sofar
        }
    }
}

impl PluginView {
    /// The plugin with every title among the strays whose pane a list of panes holds, but at no
    /// known tab.
    pub open spec fn kept(self) -> PluginView {
        PluginView {
            strays: with_strays(
                self.state,
                self.strays,
                ordered::listing(titles::places(self.state.overrides)),
            ),
            ..self
        }
    }

    /// The plugin once the titles that waited for their panes are given, where those are
    /// known.
    pub open spec fn resolved(self) -> PluginView {
        PluginView {
            state: settled(self.state, self.pending),
            pending: self.pending.filter(unplaced(self.state.tabs, self.state.panes)),
            ..self
        }
    }

    /// The plugin once the strays are given whose panes are at a known tab. Those whose panes no
    /// list of panes holds are given up.
    pub open spec fn returned(self) -> PluginView {
        PluginView {
            state: settled(self.state, self.strays),
            strays: self.strays.filter(astray(self.state.tabs, self.state.panes)),
            ..self
        }
    }

    /// The plugin without a title of the pane `id` among the strays.
    pub open spec fn unstrayed(self, id: u32) -> PluginView {
        PluginView { strays: self.strays.filter(of_others(id)), ..self }
    }

    /// The plugin without a title of the pane `id` that waits.
    pub open spec fn unawaited(self, id: u32) -> PluginView {
        PluginView { pending: self.pending.filter(of_others(id)), ..self }
    }

    /// The plugin with a title that waits for its pane, in the place of an earlier one.
    pub open spec fn waiting(self, e: PendingView) -> PluginView {
        PluginView { pending: self.unawaited(e.pane_id).pending.push(e), ..self }
    }
}

/// The titles settle without a change to the tabs and panes.
pub proof fn lemma_settled(s: StateView, pending: Seq<PendingView>)
    ensures
        settled(s, pending) == (StateView {
            overrides: settled(s, pending).overrides,
            fallbacks: settled(s, pending).fallbacks,
            ..s
        }),
    decreases pending.len(),
{
    if pending.len() > 0 {
        lemma_settled(s, pending.drop_last());
    }
}

/// Whether a title of the pane `id` waits.
pub fn is_waiting(pending: &Vec<PendingTitle>, id: u32) -> (r: bool)
    ensures
        r == waits(model::pending_views(pending@), id),
{
    let ghost all = model::pending_views(pending@);
    let mut i: usize = 0;
    while i < pending.len()
        invariant
            i <= pending@.len(),
            all == model::pending_views(pending@),
            forall|j: int| 0 <= j < i ==> (#[trigger] all[j]).pane_id != id,
        decreases pending@.len() - i,
    {
        assert(all[i as int] == pending@[i as int]@);
        if pending[i].pane_id == id {
            return true;
        }
        i = i + 1;
    }
    false
}

impl State {
    fn last_entry(&self, id: u32) -> (r: PendingTitle)
        requires
            titles::has_text(self.state@.overrides, id),
        ensures
            r@ == self.state@.last_entry(id),
    {
        let title = match titles::find_last_text(&self.state.tab_name_overrides, id) {
            Some(t) => t.clone(),
            None => String::new(),
        };
        let project = match titles::find_last_text(&self.state.tab_name_fallbacks, id) {
            Some(f) => Some(f.clone()),
            None => None,
        };
        PendingTitle { pane_id: id, title, project }
    }

    /// Sets every title aside whose pane a list of panes holds, but at no known tab.
    pub fn keep_unplaced_titles(&mut self)
        ensures
            final(self)@ == old(self)@.kept(),
    {
        let places = titles::listed_places(&self.state.tab_name_overrides);
        let ghost s = self.state@;
        let ghost strays = self@.strays;
        let mut i: usize = 0;
        assert(places@.take(0) =~= Seq::empty());
        while i < places.len()
            invariant
                i <= places@.len(),
                s == old(self)@.state,
                strays == old(self)@.strays,
                self.state == old(self).state,
                ordered::lists(places@, titles::places(s.overrides)),
                self@ == (PluginView {
                    strays: with_strays(s, strays, places@.take(i as int)),
                    ..old(self)@
                }),
            decreases places@.len() - i,
        {
            let (position, id) = places[i];
            let ghost before = self@;
            proof {
                assert(places@.take(i + 1).drop_last() =~= places@.take(i as int));
                assert(places@.take(i + 1).last() == (position, id));
                assert(places@.contains(places@[i as int]));
                assert(titles::places(s.overrides).contains((position, id)));
                assert(tab_name::text_of(s.overrides, position, id) is Some);
            }
            if self.is_astray(id) && !is_waiting(&self.stray_titles, id) {
                let e = self.last_entry(id);
                let ghost v = e@;
                self.stray_titles.push(e);
                assert(self@.strays =~= before.strays.push(v));
            }
            i = i + 1;
            assert(self@ =~= (PluginView {
                strays: with_strays(s, strays, places@.take(i as int)),
                ..old(self)@
            }));
        }
        assert(places@.take(i as int) =~= places@);
    }

    fn is_astray(&self, id: u32) -> (r: bool)
        ensures
            r == (self@.tab_of(id) is None && titles::listed(self@.state.panes, id)),
    {
        self.find_tab_for_pane(id).is_none() && titles::is_listed(&self.state.panes, id)
    }

    fn settle(&mut self, e: &PendingTitle)
        ensures
            final(self)@ == (PluginView { state: settled_one(old(self)@.state, e@), ..old(self)@ }),
    {
        if let Some(position) = self.find_tab_for_pane(e.pane_id) {
            if e.title.as_str().is_empty() {
                titles::remove_text(&mut self.state.tab_name_overrides, position, e.pane_id);
            } else {
                titles::put_text(
                    &mut self.state.tab_name_overrides,
                    position,
                    e.pane_id,
                    e.title.clone(),
                );
                if let Some(f) = &e.project {
                    titles::put_text(
                        &mut self.state.tab_name_fallbacks,
                        position,
                        e.pane_id,
                        f.clone(),
                    );
                }
            }
        }
    }

    /// Gives the titles that waited for their panes, where those are known by now.
    pub fn resolve_pending_overrides(&mut self)
        ensures
            final(self)@ == old(self)@.resolved(),
    {
        let mut pending: Vec<PendingTitle> = Vec::new();
        std::mem::swap(&mut pending, &mut self.pending_pipe_overrides);
        let ghost all = model::pending_views(pending@);
        let ghost waits = unplaced(old(self)@.state.tabs, old(self)@.state.panes);
        let mut i: usize = 0;
        proof {
            assert(all.take(0) =~= Seq::empty());
            reveal(Seq::filter);
            assert(model::pending_views(self.pending_pipe_overrides@) =~= Seq::empty());
        }
        while i < pending.len()
            invariant
                i <= pending@.len(),
                all == model::pending_views(pending@),
                waits == unplaced(old(self)@.state.tabs, old(self)@.state.panes),
                self@ == (PluginView {
                    state: settled(old(self)@.state, all.take(i as int)),
                    pending: all.take(i as int).filter(waits),
                    ..old(self)@
                }),
            decreases pending@.len() - i,
        {
            let ghost before = self@;
            let ghost e = all[i as int];
            proof {
                assert(all.take(i + 1).drop_last() =~= all.take(i as int));
                assert(all.take(i + 1).last() == e);
                reveal(Seq::filter);
                lemma_settled(old(self)@.state, all.take(i as int));
            }
            if self.find_tab_for_pane(pending[i].pane_id).is_some() {
                self.settle(&pending[i]);
            } else {
                self.pending_pipe_overrides.push(pending[i].clone());
                assert(self@.pending =~= before.pending.push(e));
            }
            i = i + 1;
            assert(self@ =~= (PluginView {
                state: settled(old(self)@.state, all.take(i as int)),
                pending: all.take(i as int).filter(waits),
                ..old(self)@
            }));
        }
        assert(all.take(i as int) =~= all);
    }

    /// Gives the strays whose panes are at a known tab by now, and gives those up whose panes no
    /// list of panes holds any more.
    pub fn return_strays(&mut self)
        ensures
            final(self)@ == old(self)@.returned(),
    {
        let mut strays: Vec<PendingTitle> = Vec::new();
        std::mem::swap(&mut strays, &mut self.stray_titles);
        let ghost all = model::pending_views(strays@);
        let ghost stay = astray(old(self)@.state.tabs, old(self)@.state.panes);
        let mut i: usize = 0;
        proof {
            assert(all.take(0) =~= Seq::empty());
            reveal(Seq::filter);
            assert(model::pending_views(self.stray_titles@) =~= Seq::empty());
        }
        while i < strays.len()
            invariant
                i <= strays@.len(),
                all == model::pending_views(strays@),
                stay == astray(old(self)@.state.tabs, old(self)@.state.panes),
                self@ == (PluginView {
                    state: settled(old(self)@.state, all.take(i as int)),
                    strays: all.take(i as int).filter(stay),
                    ..old(self)@
                }),
            decreases strays@.len() - i,
        {
            let ghost before = self@;
            let ghost e = all[i as int];
            proof {
                assert(all.take(i + 1).drop_last() =~= all.take(i as int));
                assert(all.take(i + 1).last() == e);
                reveal(Seq::filter);
                lemma_settled(old(self)@.state, all.take(i as int));
            }
            if self.is_astray(strays[i].pane_id) {
                self.stray_titles.push(strays[i].clone());
                assert(self@.strays =~= before.strays.push(e));
            } else {
                self.settle(&strays[i]);
            }
            i = i + 1;
            assert(self@ =~= (PluginView {
                state: settled(old(self)@.state, all.take(i as int)),
                strays: all.take(i as int).filter(stay),
                ..old(self)@
            }));
        }
        assert(all.take(i as int) =~= all);
    }

    pub(crate) fn forget_waiting(&mut self, id: u32)
        ensures
            final(self)@ == old(self)@.unawaited(id),
    {
        self.pending_pipe_overrides = without_pane(&self.pending_pipe_overrides, id);
    }

    pub(crate) fn forget_stray(&mut self, id: u32)
        ensures
            final(self)@ == old(self)@.unstrayed(id),
    {
        self.stray_titles = without_pane(&self.stray_titles, id);
    }

    pub(crate) fn wait_for_pane(&mut self, title: PendingTitle)
        ensures
            final(self)@ == old(self)@.waiting(title@),
    {
        let ghost e = title@;
        self.forget_waiting(title.pane_id);
        let ghost others = self@.pending;
        self.pending_pipe_overrides.push(title);
        assert(self@.pending =~= others.push(e));
    }
}

fn without_pane(titles: &Vec<PendingTitle>, id: u32) -> (r: Vec<PendingTitle>)
    ensures
        model::pending_views(r@) == model::pending_views(titles@).filter(of_others(id)),
{
    let ghost all = model::pending_views(titles@);
    let mut kept: Vec<PendingTitle> = Vec::new();
    let mut i: usize = 0;
    proof {
        reveal(Seq::filter);
        assert(model::pending_views(kept@) =~= all.take(0).filter(of_others(id)));
    }
    while i < titles.len()
        invariant
            i <= titles@.len(),
            all == model::pending_views(titles@),
            model::pending_views(kept@) == all.take(i as int).filter(of_others(id)),
        decreases titles@.len() - i,
    {
        let ghost earlier = model::pending_views(kept@);
        let ghost e = all[i as int];
        proof {
            assert(all.take(i + 1).drop_last() =~= all.take(i as int));
            assert(all.take(i + 1).last() == e);
            reveal(Seq::filter);
        }
        if titles[i].pane_id != id {
            kept.push(titles[i].clone());
            assert(model::pending_views(kept@) =~= earlier.push(e));
        }
        i = i + 1;
    }
    assert(all.take(i as int) =~= all);
    kept
}

} // verus!

//! The titles of a session, saved and restored.

use vstd::prelude::*;

use crate::event;
use crate::event::{Action, Outcome, OutcomeView};
use crate::ordered;
use crate::ordered::Ranked;
use crate::plugin::laws;
use crate::plugin::model;
use crate::plugin::model::{PendingTitle, PendingView, PluginView, State};
use crate::plugin::pending;
use crate::plugin::saved;
use crate::state::{StateView, UpdateEventMask};
use crate::tab_name;
use crate::titles;

verus! {

impl StateView {
    /// The title at `place`, with the project of its pane.
    pub open spec fn entry_at(self, place: (usize, u32)) -> PendingView {
        PendingView {
            pane_id: place.1,
            title: self.overrides[place.0][place.1],
            project: titles::first_text(self.fallbacks, place.1),
        }
    }

    /// The titles at `places`.
    pub open spec fn entries_at(self, places: Seq<(usize, u32)>) -> Seq<PendingView> {
        places.map_values(|place: (usize, u32)| self.entry_at(place))
    }

    /// All titles, in the order of the tabs and their panes.
    pub open spec fn entries(self) -> Seq<PendingView> {
        self.entries_at(ordered::listing(titles::places(self.overrides)))
    }
}

/// A title that is not empty.
pub open spec fn says_something() -> spec_fn(PendingView) -> bool {
    |e: PendingView| e.title.len() > 0
}

/// `waiting` with the titles `entries` behind it, but for those of panes that have a title in
/// `overrides`, one astray, or one that waits.
pub open spec fn joined(
    overrides: titles::Texts,
    strays: Seq<PendingView>,
    waiting: Seq<PendingView>,
    entries: Seq<PendingView>,
) -> Seq<PendingView>
    decreases entries.len(),
{
    if entries.len() == 0 {
        waiting
    } else {
        let sofar = joined(overrides, strays, waiting, entries.drop_last());
        let e = entries.last();
        if titles::has_text(overrides, e.pane_id) || pending::waits(strays, e.pane_id)
            || pending::waits(sofar, e.pane_id) {
            sofar
        } else {
            sofar.push(e)
        }
    }
}

/// A title of a pane that has none in `others`.
pub open spec fn missing_in(others: Seq<PendingView>) -> spec_fn(PendingView) -> bool {
    |e: PendingView| !pending::waits(others, e.pane_id)
}

impl PluginView {
    /// The titles that wait and say something.
    pub open spec fn waiting_to_save(self) -> Seq<PendingView> {
        self.pending.filter(says_something())
    }

    /// The titles that are saved: those that stand, those that are astray, and those that wait. Of
    /// a pane that has one astray and one that waits, the one that waits is the newer, and is
    /// saved.
    pub open spec fn to_save(self) -> Seq<PendingView> {
        self.state.entries() + self.strays.filter(missing_in(self.waiting_to_save()))
            + self.waiting_to_save()
    }

    /// The plugin with titles that were saved, and what it asks for. A title that the plugin knows
    /// already stays.
    pub open spec fn restored(self, entries: Seq<PendingView>) -> (PluginView, OutcomeView) {
        let next = PluginView {
            pending: joined(self.state.overrides, self.strays, self.pending, entries),
            ..self
        }.resolved();
        (
            next.timed().stale(UpdateEventMask::Tab),
            OutcomeView { render: true, actions: next.timeouts() },
        )
    }
}

impl State {
    fn entry(&self, position: usize, id: u32) -> (r: PendingTitle)
        requires
            tab_name::text_of(self.state@.overrides, position, id) is Some,
        ensures
            r@ == self.state@.entry_at((position, id)),
    {
        let title = match tab_name::find_text(&self.state.tab_name_overrides, position, id) {
            Some(t) => t.clone(),
            None => String::new(),
        };
        let project = match titles::find_first_text(&self.state.tab_name_fallbacks, id) {
            Some(f) => Some(f.clone()),
            None => None,
        };
        PendingTitle { pane_id: id, title, project }
    }

    /// All titles, in the order of the tabs and their panes.
    pub fn entries(&self) -> (r: Vec<PendingTitle>)
        ensures
            model::pending_views(r@) == self@.state.entries(),
    {
        let places = titles::listed_places(&self.state.tab_name_overrides);
        let mut r: Vec<PendingTitle> = Vec::new();
        let mut i: usize = 0;
        assert(model::pending_views(r@) =~= self.state@.entries_at(places@.take(0)));
        while i < places.len()
            invariant
                i <= places@.len(),
                ordered::lists(places@, titles::places(self.state@.overrides)),
                model::pending_views(r@) == self.state@.entries_at(places@.take(i as int)),
            decreases places@.len() - i,
        {
            let (position, id) = places[i];
            assert(titles::places(self.state@.overrides).contains((position, id))) by {
                assert(places@.contains(places@[i as int]));
            }
            let ghost before = model::pending_views(r@);
            let e = self.entry(position, id);
            let ghost v = e@;
            r.push(e);
            assert(model::pending_views(r@) =~= before.push(v));
            assert(self.state@.entries_at(places@.take(i + 1)) =~= before.push(v));
            i = i + 1;
        }
        assert(places@.take(i as int) =~= places@);
        r
    }

    fn waiting_to_save(&self) -> (r: Vec<PendingTitle>)
        ensures
            model::pending_views(r@) == self@.waiting_to_save(),
    {
        let mut r: Vec<PendingTitle> = Vec::new();
        let ghost all = self@.pending;
        let mut i: usize = 0;
        proof {
            reveal(Seq::filter);
            assert(model::pending_views(r@) =~= all.take(0).filter(says_something()));
        }
        while i < self.pending_pipe_overrides.len()
            invariant
                i <= self.pending_pipe_overrides@.len(),
                all == model::pending_views(self.pending_pipe_overrides@),
                model::pending_views(r@) == all.take(i as int).filter(says_something()),
            decreases self.pending_pipe_overrides@.len() - i,
        {
            let ghost before = model::pending_views(r@);
            let ghost e = all[i as int];
            proof {
                assert(all.take(i + 1).drop_last() =~= all.take(i as int));
                assert(all.take(i + 1).last() == e);
                reveal(Seq::filter);
            }
            if !self.pending_pipe_overrides[i].title.as_str().is_empty() {
                r.push(self.pending_pipe_overrides[i].clone());
                assert(model::pending_views(r@) =~= before.push(e));
            }
            i = i + 1;
        }
        assert(all.take(i as int) =~= all);
        r
    }

    /// The titles that are saved: those that stand, those that are astray, and those that wait.
    pub fn titles_to_save(&self) -> (r: Vec<PendingTitle>)
        ensures
            model::pending_views(r@) == self@.to_save(),
    {
        let mut r = self.entries();
        let waiting = self.waiting_to_save();
        let ghost placed = self@.state.entries();
        let ghost all = self@.strays;
        let ghost heard = self@.waiting_to_save();
        let ghost f = missing_in(heard);
        let mut i: usize = 0;
        proof {
            reveal(Seq::filter);
            assert(placed + all.take(0).filter(f) =~= placed);
        }
        while i < self.stray_titles.len()
            invariant
                i <= self.stray_titles@.len(),
                all == model::pending_views(self.stray_titles@),
                heard == model::pending_views(waiting@),
                f == missing_in(heard),
                model::pending_views(r@) == placed + all.take(i as int).filter(f),
            decreases self.stray_titles@.len() - i,
        {
            let ghost before = model::pending_views(r@);
            let ghost sofar = all.take(i as int).filter(f);
            let ghost e = all[i as int];
            proof {
                assert(all.take(i + 1).drop_last() =~= all.take(i as int));
                assert(all.take(i + 1).last() == e);
                reveal(Seq::filter);
            }
            if !pending::is_waiting(&waiting, self.stray_titles[i].pane_id) {
                r.push(self.stray_titles[i].clone());
                assert(model::pending_views(r@) =~= before.push(e));
                assert(placed + sofar.push(e) =~= before.push(e));
            }
            i = i + 1;
        }
        assert(all.take(i as int) =~= all);
        let ghost before = model::pending_views(r@);
        let mut waiting = waiting;
        let ghost last = waiting@;
        let ghost first = r@;
        r.append(&mut waiting);
        assert(r@ =~= first + last);
        assert(model::pending_views(r@) =~= before + heard);
        r
    }

    /// The file that holds the titles of the session, and what has to stand in it. There is none
    /// while the name of the session is not known.
    pub fn save(&self) -> (r: Option<(String, String)>)
        ensures
            match r {
                Some((path, content)) => {
                    &&& self@.state.session is Some
                    &&& path@ == saved::path_of(self@.state.session->0)
                    &&& content@ == saved::written(self@.to_save())
                },
                None => self@.state.session is None,
            },
    {
        match &self.state.mode.session_name {
            Some(session) => Some(
                (saved::path(session.as_str()), saved::write(&self.titles_to_save())),
            ),
            None => None,
        }
    }

    fn join(&mut self, entries: &Vec<PendingTitle>)
        ensures
            final(self)@ == (PluginView {
                pending: joined(
                    old(self)@.state.overrides,
                    old(self)@.strays,
                    old(self)@.pending,
                    model::pending_views(entries@),
                ),
                ..old(self)@
            }),
    {
        let ghost all = model::pending_views(entries@);
        let ghost overrides = self@.state.overrides;
        let mut i: usize = 0;
        assert(all.take(0) =~= Seq::empty());
        while i < entries.len()
            invariant
                i <= entries@.len(),
                all == model::pending_views(entries@),
                overrides == old(self)@.state.overrides,
                self.state == old(self).state,
                self.stray_titles == old(self).stray_titles,
                self@ == (PluginView {
                    pending: joined(overrides, old(self)@.strays, old(self)@.pending, all.take(i as int)),
                    ..old(self)@
                }),
            decreases entries@.len() - i,
        {
            let ghost before = self@;
            let id: u32 = entries[i].pane_id;
            proof {
                assert(all.take(i + 1).drop_last() =~= all.take(i as int));
                assert(all.take(i + 1).last() == entries@[i as int]@);
            }
            if titles::find_first_text(&self.state.tab_name_overrides, id).is_none()
                && !pending::is_waiting(&self.stray_titles, id) && !pending::is_waiting(
                &self.pending_pipe_overrides,
                id,
            ) {
                self.pending_pipe_overrides.push(entries[i].clone());
                assert(self@.pending =~= before.pending.push(entries@[i as int]@));
            }
            i = i + 1;
            assert(self@ =~= (PluginView {
                pending: joined(overrides, old(self)@.strays, old(self)@.pending, all.take(i as int)),
                ..old(self)@
            }));
        }
        assert(all.take(i as int) =~= all);
    }

    /// Takes in what the file of the session holds. A file that holds something else changes
    /// nothing.
    pub fn restore(&mut self, content: &str) -> (r: Outcome)
        ensures
            (final(self)@, r@) == (match saved::read(content@) {
                Some(entries) => old(self)@.restored(entries),
                None => (old(self)@, event::only(false)),
            }),
    {
        let mut actions: Vec<Action> = Vec::new();
        assert(event::action_views(actions@) =~= Seq::empty());
        match saved::parse(content) {
            Some(entries) => {
                self.join(&entries);
                self.resolve_pending_overrides();
                let ghost next = self@;
                self.ensure_timer(&mut actions);
                assert(event::action_views(actions@) =~= next.timeouts());
                self.state.cache_mask = Some(UpdateEventMask::Tab);
                Outcome { render: true, actions }
            },
            None => Outcome { render: false, actions },
        }
    }
}

/// Joining keeps what waited, takes no pane twice, and takes in the only title of a pane that is
/// not known yet.
proof fn lemma_joined(
    overrides: titles::Texts,
    strays: Seq<PendingView>,
    waiting: Seq<PendingView>,
    entries: Seq<PendingView>,
    i: int,
)
    requires
        0 <= i < entries.len(),
        laws::one_each(waiting),
        !titles::has_text(overrides, entries[i].pane_id),
        !pending::waits(strays, entries[i].pane_id),
        !pending::waits(waiting, entries[i].pane_id),
        forall|j: int|
            0 <= j < entries.len() && j != i ==> (#[trigger] entries[j]).pane_id
                != entries[i].pane_id,
    ensures
        joined(overrides, strays, waiting, entries).contains(entries[i]),
    decreases entries.len(),
{
    let front = entries.drop_last();
    let sofar = joined(overrides, strays, waiting, front);
    let after = joined(overrides, strays, waiting, entries);
    if i < front.len() {
        assert(front[i] == entries[i]);
        assert forall|j: int| 0 <= j < front.len() && j != i implies (#[trigger] front[j]).pane_id
            != front[i].pane_id by {
            assert(entries[j].pane_id != entries[i].pane_id);
        }
        lemma_joined(overrides, strays, waiting, front, i);
        let k = sofar.index_of(entries[i]);
        assert(after[k] == entries[i]);
    } else {
        lemma_joined_only(overrides, strays, waiting, front, entries[i].pane_id);
        assert(after[after.len() - 1] == entries[i]);
    }
}

/// A pane that has no title among those that are joined gets none.
proof fn lemma_joined_only(
    overrides: titles::Texts,
    strays: Seq<PendingView>,
    waiting: Seq<PendingView>,
    entries: Seq<PendingView>,
    id: u32,
)
    requires
        !pending::waits(waiting, id),
        forall|j: int| 0 <= j < entries.len() ==> (#[trigger] entries[j]).pane_id != id,
    ensures
        !pending::waits(joined(overrides, strays, waiting, entries), id),
    decreases entries.len(),
{
    if entries.len() > 0 {
        let front = entries.drop_last();
        assert forall|j: int| 0 <= j < front.len() implies (#[trigger] front[j]).pane_id != id by {
            assert(entries[j].pane_id != id);
        }
        lemma_joined_only(overrides, strays, waiting, front, id);
        assert(entries[entries.len() - 1].pane_id != id);
        let sofar = joined(overrides, strays, waiting, front);
        assert forall|k: int| 0 <= k < joined(overrides, strays, waiting, entries).len() implies (
        #[trigger] joined(overrides, strays, waiting, entries)[k]).pane_id != id by {
            if k < sofar.len() {
                assert(sofar[k].pane_id != id);
            }
        }
    }
}

/// Joining takes no pane twice.
pub proof fn lemma_joined_one_each(
    overrides: titles::Texts,
    strays: Seq<PendingView>,
    waiting: Seq<PendingView>,
    entries: Seq<PendingView>,
)
    requires
        laws::one_each(waiting),
    ensures
        laws::one_each(joined(overrides, strays, waiting, entries)),
    decreases entries.len(),
{
    if entries.len() > 0 {
        lemma_joined_one_each(overrides, strays, waiting, entries.drop_last());
    }
}

/// The titles that a sound plugin saves say something and are of different panes.
proof fn lemma_to_save(p: PluginView)
    requires
        p.sound(),
    ensures
        laws::one_each(p.to_save()),
        laws::each_says_something(p.to_save()),
{
    let places = ordered::listing(titles::places(p.state.overrides));
    let placed = p.state.entries();
    let waiting = p.waiting_to_save();
    let f = missing_in(waiting);
    let strays = p.strays.filter(f);
    let all = p.to_save();
    let n = placed.len() as int;
    let m = (placed.len() + strays.len()) as int;
    ordered::lemma_listed(titles::places(p.state.overrides));
    laws::lemma_filter(p.pending, says_something());
    laws::lemma_filter(p.strays, f);
    assert forall|i: int| 0 <= i < placed.len() implies {
        &&& tab_name::text_of(p.state.overrides, (#[trigger] places[i]).0, places[i].1) == Some(
            placed[i].title,
        )
        &&& p.tab_of(placed[i].pane_id) == Some(places[i].0)
        &&& placed[i].title.len() > 0
    } by {
        assert(places.contains(places[i]));
        assert(titles::places(p.state.overrides).contains(places[i]));
    }
    assert forall|i: int| 0 <= i < waiting.len() implies p.tab_of(
        (#[trigger] waiting[i]).pane_id,
    ) is None by {
        assert(waiting.contains(waiting[i]));
        let k = p.pending.index_of(waiting[i]);
        assert(p.tab_of(p.pending[k].pane_id) is None);
    }
    assert forall|i: int| 0 <= i < strays.len() implies p.tab_of((#[trigger] strays[i]).pane_id)
        is None && strays[i].title.len() > 0 by {
        assert(strays.contains(strays[i]));
        let k = p.strays.index_of(strays[i]);
        assert(pending::astray(p.state.tabs, p.state.panes)(p.strays[k]));
        assert(p.strays[k].title.len() > 0);
    }
    assert forall|i: int, j: int| 0 <= i < j < all.len() implies (#[trigger] all[i]).pane_id != (
    #[trigger] all[j]).pane_id by {
        if i < n {
            assert(p.tab_of(placed[i].pane_id) == Some(places[i].0));
            if j < n {
                assert(places[i].rank() < places[j].rank());
                assert(p.tab_of(placed[j].pane_id) == Some(places[j].0));
            } else if j < m {
                assert(p.tab_of(strays[j - n].pane_id) is None);
            } else {
                assert(p.tab_of(waiting[j - m].pane_id) is None);
            }
        } else if j < m {
            assert(strays[i - n].pane_id != strays[j - n].pane_id);
        } else if i < m {
            assert(f(strays[i - n]));
            assert(waiting[j - m].pane_id == all[j].pane_id);
        } else {
            assert(waiting[i - m].pane_id != waiting[j - m].pane_id);
        }
    }
    assert forall|i: int| 0 <= i < all.len() implies (#[trigger] all[i]).title.len() > 0 by {
        if i < n {
            assert(tab_name::text_of(p.state.overrides, places[i].0, places[i].1) is Some);
        } else if i < m {
            assert(p.tab_of(strays[i - n].pane_id) is None);
        } else {
            assert(says_something()(waiting[i - m]));
        }
    }
}

/// A title that stands at `position` is among those that are saved, with the project of its pane.
proof fn lemma_placed_is_saved(p: PluginView, position: usize, id: u32)
    requires
        tab_name::text_of(p.state.overrides, position, id) is Some,
    ensures
        p.to_save().contains(
            (PendingView {
                pane_id: id,
                title: tab_name::text_of(p.state.overrides, position, id)->0,
                project: titles::first_text(p.state.fallbacks, id),
            }),
        ),
{
    let places = ordered::listing(titles::places(p.state.overrides));
    ordered::lemma_listed(titles::places(p.state.overrides));
    assert(titles::places(p.state.overrides).contains((position, id)));
    let i = places.index_of((position, id));
    assert(p.state.entries()[i] == p.state.entry_at((position, id)));
    assert(p.to_save()[i] == p.state.entry_at((position, id)));
}

/// A title that waits and says something is among those that are saved.
proof fn lemma_waiting_is_saved(p: PluginView, e: PendingView)
    requires
        p.pending.contains(e),
        e.title.len() > 0,
    ensures
        p.to_save().contains(e),
{
    laws::lemma_filter(p.pending, says_something());
    let waiting = p.waiting_to_save();
    assert(says_something()(e));
    assert(waiting.contains(e));
    let i = waiting.index_of(e);
    let n = p.to_save().len() - waiting.len();
    assert(p.to_save()[n + i] == e);
}

/// Every title is among those that are saved, with its project, whether it stands somewhere, is
/// astray, or waits for its pane.
pub proof fn law_every_title_is_saved(
    p: PluginView,
    id: u32,
    title: Seq<char>,
    project: Option<Seq<char>>,
)
    requires
        title.len() > 0,
        p.carries(id, title, project) || p.awaits(id, title, project),
    ensures
        p.to_save().contains((PendingView { pane_id: id, title, project })),
{
    let e = PendingView { pane_id: id, title, project };
    if p.awaits(id, title, project) {
        lemma_waiting_is_saved(p, e);
    } else if p.has_stray(id, title, project) {
        let f = missing_in(p.waiting_to_save());
        laws::lemma_filter(p.strays, f);
        laws::lemma_filter(p.pending, says_something());
        assert(f(e)) by {
            if pending::waits(p.waiting_to_save(), id) {
                let k = choose|k: int|
                    0 <= k < p.waiting_to_save().len() && (
                    #[trigger] p.waiting_to_save()[k]).pane_id == id;
                assert(p.waiting_to_save().contains(p.waiting_to_save()[k]));
                let j = p.pending.index_of(p.waiting_to_save()[k]);
                assert(p.pending[j].pane_id == id);
            }
        }
        let strays = p.strays.filter(f);
        assert(strays.contains(e));
        let i = strays.index_of(e);
        assert(p.to_save()[p.state.entries().len() + i] == e);
    } else {
        let at = choose|q: usize| #[trigger] p.stands(q, id, title, project);
        assert(tab_name::text_of(p.state.overrides, at, id) == Some(title));
        titles::lemma_first_text(p.state.fallbacks, id, at);
        lemma_placed_is_saved(p, at, id);
    }
}

/// A title that is taken in from a file, because the plugin knew of none of its pane, is among
/// those that are saved next: with the project from the file or, where that has none, with the one
/// that the pane had.
pub proof fn law_restored_titles_are_saved(p: PluginView, entries: Seq<PendingView>, i: int)
    requires
        p.sound(),
        0 <= i < entries.len(),
        entries[i].title.len() > 0,
        forall|j: int|
            0 <= j < entries.len() && j != i ==> (#[trigger] entries[j]).pane_id
                != entries[i].pane_id,
        !titles::has_text(p.state.overrides, entries[i].pane_id),
        !pending::waits(p.strays, entries[i].pane_id),
        !pending::waits(p.pending, entries[i].pane_id),
    ensures
        p.restored(entries).0.to_save().contains(
            (PendingView {
                project: if entries[i].project is Some {
                    entries[i].project
                } else {
                    titles::first_text(p.state.fallbacks, entries[i].pane_id)
                },
                ..entries[i]
            }),
        ),
{
    let e = entries[i];
    let id = e.pane_id;
    let after = p.restored(entries).0;
    lemma_joined(p.state.overrides, p.strays, p.pending, entries, i);
    lemma_joined_one_each(p.state.overrides, p.strays, p.pending, entries);
    law_restoring_keeps_soundness(p, entries);
    let q = PluginView { pending: joined(p.state.overrides, p.strays, p.pending, entries), ..p };
    match p.tab_of(id) {
        Some(at) => {
            laws::law_waiting_title_is_given(q, e, at);
            laws::lemma_waiting_project(q, e, at);
            assert(after.state.overrides == q.resolved().state.overrides);
            assert(after.state.fallbacks == q.resolved().state.fallbacks);
            titles::lemma_first_text(p.state.fallbacks, id, at);
            assert(after.tab_of(id) == Some(at));
            titles::lemma_first_text(after.state.fallbacks, id, at);
            lemma_placed_is_saved(after, at, id);
        },
        None => {
            laws::lemma_filter(q.pending, pending::unplaced(q.state.tabs, q.state.panes));
            assert(after.pending.contains(e));
            assert(!titles::has_text(p.state.fallbacks, id));
            lemma_waiting_is_saved(after, e);
        },
    }
}

/// A title that one instance saved, with its project, is with the tab of its pane, or waits for
/// its pane, in an instance that restores what was saved and knew of no title of the pane.
pub proof fn law_saved_titles_come_back(sender: PluginView, receiver: PluginView, e: PendingView)
    requires
        sender.sound(),
        sender.to_save().contains(e),
        forall|i: int|
            0 <= i < sender.to_save().len() ==> {
                &&& (#[trigger] sender.to_save()[i]).title.len() <= usize::MAX
                &&& saved::project_text(sender.to_save()[i].project).len() <= usize::MAX
            },
        laws::one_each(receiver.pending),
        !titles::has_text(receiver.state.overrides, e.pane_id),
        !pending::waits(receiver.strays, e.pane_id),
        !pending::waits(receiver.pending, e.pane_id),
    ensures
        match saved::read(saved::written(sender.to_save())) {
            Some(entries) => {
                let after = receiver.restored(entries).0;
                match receiver.tab_of(e.pane_id) {
                    Some(at) => after.has_title(at, e.pane_id, e.title, e.project),
                    None => after.pending.contains(e),
                }
            },
            None => false,
        },
{
    let entries = sender.to_save();
    saved::law_written_titles_read_back(entries);
    lemma_to_save(sender);
    let i = entries.index_of(e);
    assert forall|j: int| 0 <= j < entries.len() && j != i implies (#[trigger] entries[j]).pane_id
        != entries[i].pane_id by {
        if j < i {
            assert(entries[j].pane_id != entries[i].pane_id);
        } else {
            assert(entries[i].pane_id != entries[j].pane_id);
        }
    }
    lemma_joined(receiver.state.overrides, receiver.strays, receiver.pending, entries, i);
    lemma_joined_one_each(receiver.state.overrides, receiver.strays, receiver.pending, entries);
    let q = PluginView {
        pending: joined(receiver.state.overrides, receiver.strays, receiver.pending, entries),
        ..receiver
    };
    assert(q.pending.contains(e));
    assert(entries[i].title.len() > 0);
    match receiver.tab_of(e.pane_id) {
        Some(at) => {
            laws::law_waiting_title_is_given(q, e, at);
        },
        None => {
            laws::lemma_filter(q.pending, pending::unplaced(q.state.tabs, q.state.panes));
        },
    }
}

/// Restoring keeps the plugin sound.
pub proof fn law_restoring_keeps_soundness(p: PluginView, entries: Seq<PendingView>)
    requires
        p.sound(),
    ensures
        p.restored(entries).0.sound(),
{
    lemma_joined_one_each(p.state.overrides, p.strays, p.pending, entries);
    let q = PluginView { pending: joined(p.state.overrides, p.strays, p.pending, entries), ..p };
    laws::lemma_resolved_sound(q);
}

} // verus!

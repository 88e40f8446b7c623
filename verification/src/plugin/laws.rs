//! What holds of the plugin as a whole.

use vstd::prelude::*;

use crate::data::{PaneView, TabView};
use crate::event;
use crate::event::{ActionView, EventView, MessageView, OutcomeView};
use crate::number;
use crate::ordered;
use crate::ordered::Ranked;
use crate::plugin::broadcast;
use crate::plugin::life;
use crate::plugin::messages;
use crate::plugin::model::{PendingView, PluginView};
use crate::plugin::pending;
use crate::search;
use crate::state;
use crate::state::{StateView, UpdateEventMask};
use crate::tab_name;
use crate::titles;
use crate::titles::Texts;

verus! {

/// No stored title is empty.
pub open spec fn all_say_something(texts: Texts) -> bool {
    forall|p: usize, id: u32|
        match #[trigger] tab_name::text_of(texts, p, id) {
            Some(t) => t.len() > 0,
            None => true,
        }
}

/// No pane has two titles waiting.
pub open spec fn one_each(pending: Seq<PendingView>) -> bool {
    forall|i: int, j: int|
        0 <= i < j < pending.len() ==> (#[trigger] pending[i]).pane_id != (
        #[trigger] pending[j]).pane_id
}

/// No two of the titles that wait are of the pane `id`.
pub open spec fn at_most_one(pending: Seq<PendingView>, id: u32) -> bool {
    forall|i: int, j: int|
        0 <= i < j < pending.len() && (#[trigger] pending[i]).pane_id == id ==> (
        #[trigger] pending[j]).pane_id != id
}

impl StateView {
    /// Every one of `texts` stands at the tab that holds its pane.
    pub open spec fn holds_in_place(self, texts: Texts) -> bool {
        forall|q: usize, id: u32| #[trigger]
            tab_name::text_of(texts, q, id) is Some ==> titles::located(self.tabs, self.panes, id)
                == Some(q)
    }
}

/// Every title of a list says something.
pub open spec fn each_says_something(entries: Seq<PendingView>) -> bool {
    forall|i: int| 0 <= i < entries.len() ==> (#[trigger] entries[i]).title.len() > 0
}

impl PluginView {
    /// No tab is listed without a text, no stored title is empty, no pane has two titles waiting or
    /// astray, and no event waits once the permissions are granted.
    pub open spec fn tidy(self) -> bool {
        &&& titles::compact(self.state.overrides)
        &&& titles::compact(self.state.fallbacks)
        &&& all_say_something(self.state.overrides)
        &&& each_says_something(self.strays)
        &&& one_each(self.pending)
        &&& one_each(self.strays)
        &&& self.got_permissions ==> self.pending_events.len() == 0
    }

    /// What is always true of the plugin: it is tidy, every title and every project stands at the
    /// tab that holds its pane, a title waits only while its pane is at no known tab, and a title
    /// is astray only while a list of panes holds its pane, but at no known tab.
    pub open spec fn sound(self) -> bool {
        &&& self.tidy()
        &&& self.state.holds_in_place(self.state.overrides)
        &&& self.state.holds_in_place(self.state.fallbacks)
        &&& forall|i: int|
            0 <= i < self.pending.len() ==> self.tab_of((#[trigger] self.pending[i]).pane_id)
                is None
        &&& forall|i: int|
            0 <= i < self.strays.len() ==> pending::astray(self.state.tabs, self.state.panes)(
                #[trigger] self.strays[i],
            )
    }

    /// Nothing of the pane `id` stands anywhere or is astray.
    pub open spec fn is_rid_of(self, id: u32) -> bool {
        &&& !titles::has_text(self.state.overrides, id)
        &&& !titles::has_text(self.state.fallbacks, id)
        &&& !pending::waits(self.strays, id)
    }

    /// The title of the pane `id` and its project stand at `position` and nowhere else, and no
    /// title of the pane is astray or waits.
    pub open spec fn stands(
        self,
        position: usize,
        id: u32,
        title: Seq<char>,
        project: Option<Seq<char>>,
    ) -> bool {
        &&& forall|q: usize| #[trigger]
            tab_name::text_of(self.state.overrides, q, id) == (if q == position {
                Some(title)
            } else {
                None
            })
        &&& forall|q: usize| #[trigger]
            tab_name::text_of(self.state.fallbacks, q, id) == (if q == position {
                project
            } else {
                None
            })
        &&& !pending::waits(self.strays, id)
        &&& !pending::waits(self.pending, id)
    }

    /// The title of the pane `id` is astray together with its project, nothing of the pane stands
    /// anywhere, and no title of it waits.
    pub open spec fn has_stray(
        self,
        id: u32,
        title: Seq<char>,
        project: Option<Seq<char>>,
    ) -> bool {
        &&& !titles::has_text(self.state.overrides, id)
        &&& !titles::has_text(self.state.fallbacks, id)
        &&& self.strays.contains((PendingView { pane_id: id, title, project }))
        &&& at_most_one(self.strays, id)
        &&& !pending::waits(self.pending, id)
    }

    /// The title of the pane `id` waits together with its project, and nothing of the pane stands
    /// anywhere or is astray.
    pub open spec fn awaits(
        self,
        id: u32,
        title: Seq<char>,
        project: Option<Seq<char>>,
    ) -> bool {
        &&& self.is_rid_of(id)
        &&& self.pending.contains((PendingView { pane_id: id, title, project }))
        &&& at_most_one(self.pending, id)
    }

    /// The title of the pane `id` was given and is kept, at some position or astray.
    pub open spec fn carries(
        self,
        id: u32,
        title: Seq<char>,
        project: Option<Seq<char>>,
    ) -> bool {
        ||| exists|q: usize| #[trigger] self.stands(q, id, title, project)
        ||| self.has_stray(id, title, project)
    }
}

/// A message about a title, for this session, from a pane that it names.
pub open spec fn is_title(
    p: PluginView,
    m: MessageView,
    id: u32,
    title: Seq<char>,
) -> bool {
    &&& m.name == "title"@
    &&& m.payload == Some(title)
    &&& messages::named_pane(m) == Some(id)
    &&& !messages::is_for_other(m, p.state.session)
}

/// A message about a title or the focus that is meant for another session changes nothing and asks
/// for nothing.
pub proof fn law_other_sessions_are_left_alone(p: PluginView, m: MessageView)
    requires
        m.name == "title"@ || m.name == "focus"@,
        messages::is_for_other(m, p.state.session),
    ensures
        p.piped(m) == (p, event::only(false)),
{
}

/// A message about the focus that names a pane moves the focus to that pane, and changes nothing
/// in the bar.
pub proof fn law_focus_moves_to_the_pane(p: PluginView, m: MessageView, id: u32)
    requires
        m.name == "focus"@,
        messages::named_pane(m) == Some(id),
        !messages::is_for_other(m, p.state.session),
    ensures
        p.piped(m) == (
            p,
            (OutcomeView { render: false, actions: seq![ActionView::FocusTerminalPane(id)] }),
        ),
{
    reveal_strlit("title");
    reveal_strlit("focus");
    assert("title"@[0] != "focus"@[0]);
}

/// A message about a title that names no pane changes nothing and asks for nothing.
pub proof fn law_title_needs_a_pane(p: PluginView, m: MessageView)
    requires
        m.name == "title"@,
        messages::named_pane(m) is None,
    ensures
        p.piped(m) == (p, event::only(false)),
{
}

/// An empty title takes the title of the pane and its project away, everywhere, and one that is
/// astray or waits too, and leaves those of the other panes.
pub proof fn law_empty_title_clears(p: PluginView, m: MessageView, id: u32)
    requires
        is_title(p, m, id, Seq::empty()),
    ensures
        ({
            let after = p.piped(m).0.state;
            &&& !titles::has_text(after.overrides, id)
            &&& !titles::has_text(after.fallbacks, id)
            &&& forall|q: usize, other: u32|
                other != id ==> #[trigger] tab_name::text_of(after.overrides, q, other)
                    == tab_name::text_of(p.state.overrides, q, other)
            &&& forall|q: usize, other: u32|
                other != id ==> #[trigger] tab_name::text_of(after.fallbacks, q, other)
                    == tab_name::text_of(p.state.fallbacks, q, other)
        }),
        p.sound() || p.tab_of(id) is None ==> {
            &&& p.piped(m).0.is_rid_of(id)
            &&& !pending::waits(p.piped(m).0.pending, id)
        },
        p.piped(m).1 == event::only(true),
{
    titles::law_without_takes_one_pane(p.state.overrides, id);
    titles::law_without_takes_one_pane(p.state.fallbacks, id);
    lemma_filter(p.pending, pending::of_others(id));
    lemma_filter(p.strays, pending::of_others(id));
}

/// A title stands with the tab of its pane once it was sent, the project with it if one was sent,
/// and the titles of the other panes stay.
pub proof fn law_title_is_given(
    p: PluginView,
    m: MessageView,
    id: u32,
    title: Seq<char>,
    position: usize,
)
    requires
        is_title(p, m, id, title),
        title.len() > 0,
        p.tab_of(id) == Some(position),
    ensures
        p.piped(m).0.has_title(position, id, title, m.arg("fallback"@)),
        forall|q: usize, other: u32|
            (q, other) != (position, id) ==> #[trigger] tab_name::text_of(
                p.piped(m).0.state.overrides,
                q,
                other,
            ) == tab_name::text_of(p.state.overrides, q, other),
        p.piped(m).1.render == !p.has_title(position, id, title, m.arg("fallback"@)),
{
}

/// A title that was sent before changes nothing when it is sent again, and asks for nothing.
pub proof fn law_same_title_again(
    p: PluginView,
    m: MessageView,
    id: u32,
    title: Seq<char>,
    position: usize,
)
    requires
        is_title(p, m, id, title),
        title.len() > 0,
        p.tab_of(id) == Some(position),
    ensures
        p.piped(m).0.piped(m) == (p.piped(m).0, event::only(false)),
{
    let once = p.piped(m).0;
    assert(once.tab_of(id) == Some(position));
    assert(once.has_title(position, id, title, m.arg("fallback"@)));
    assert(once.timed() =~= once);
    assert(once.timeouts() =~= Seq::empty());
}

/// A title whose pane is not known waits, in the place of one that waited before.
pub proof fn law_title_waits(p: PluginView, m: MessageView, id: u32, title: Seq<char>)
    requires
        is_title(p, m, id, title),
        title.len() > 0,
        p.tab_of(id) is None,
    ensures
        p.piped(m).0.state == p.state,
        p.piped(m).0.pending.contains(
            (PendingView { pane_id: id, title, project: m.arg("fallback"@) }),
        ),
        one_each(p.pending) ==> one_each(p.piped(m).0.pending),
        p.piped(m).1 == event::only(false),
{
    let e = PendingView { pane_id: id, title, project: m.arg("fallback"@) };
    let after = p.piped(m).0.pending;
    assert(after[after.len() - 1] == e);
    lemma_filter(p.pending, pending::of_others(id));
}

/// What a filter leaves was there before and passes it.
pub proof fn lemma_filter(all: Seq<PendingView>, f: spec_fn(PendingView) -> bool)
    ensures
        forall|i: int| 0 <= i < all.filter(f).len() ==> f(#[trigger] all.filter(f)[i]),
        forall|e: PendingView| #[trigger] all.filter(f).contains(e) <==> (all.contains(e) && f(e)),
        one_each(all) ==> one_each(all.filter(f)),
    decreases all.len(),
{
    reveal(Seq::filter);
    if all.len() > 0 {
        let front = all.drop_last();
        let last = all.last();
        lemma_filter(front, f);
        let kept = front.filter(f);
        assert forall|e: PendingView| #[trigger] all.contains(e) <==> (front.contains(e) || e
            == last) by {
            if front.contains(e) {
                assert(all[front.index_of(e)] == e);
            }
            if e == last {
                assert(all[all.len() - 1] == e);
            }
            if all.contains(e) {
                let i = all.index_of(e);
                if i < front.len() {
                    assert(front[i] == e);
                }
            }
        }
        if f(last) {
            let r = kept.push(last);
            assert forall|e: PendingView| #[trigger] r.contains(e) <==> (kept.contains(e) || e
                == last) by {
                if kept.contains(e) {
                    assert(r[kept.index_of(e)] == e);
                }
                if e == last {
                    assert(r[kept.len() as int] == e);
                }
            }
            if one_each(all) {
                assert(one_each(front)) by {
                    assert forall|i: int, j: int| 0 <= i < j < front.len() implies (
                    #[trigger] front[i]).pane_id != (#[trigger] front[j]).pane_id by {
                        assert(all[i].pane_id != all[j].pane_id);
                    }
                }
                assert forall|i: int, j: int| 0 <= i < j < r.len() implies (
                #[trigger] r[i]).pane_id != (#[trigger] r[j]).pane_id by {
                    if j == kept.len() {
                        assert(kept.contains(kept[i]));
                        let k = front.index_of(kept[i]);
                        assert(all[k].pane_id != all[all.len() - 1].pane_id);
                    }
                }
            }
        } else if one_each(all) {
            assert(one_each(front)) by {
                assert forall|i: int, j: int| 0 <= i < j < front.len() implies (
                #[trigger] front[i]).pane_id != (#[trigger] front[j]).pane_id by {
                    assert(all[i].pane_id != all[j].pane_id);
                }
            }
        }
    }
}

/// A filter leaves no pane more titles than it had.
proof fn lemma_filter_at_most_one(
    all: Seq<PendingView>,
    f: spec_fn(PendingView) -> bool,
    id: u32,
)
    requires
        at_most_one(all, id),
    ensures
        at_most_one(all.filter(f), id),
    decreases all.len(),
{
    reveal(Seq::filter);
    if all.len() > 0 {
        let front = all.drop_last();
        let last = all.last();
        assert(at_most_one(front, id)) by {
            assert forall|i: int, j: int|
                0 <= i < j < front.len() && (#[trigger] front[i]).pane_id == id implies (
            #[trigger] front[j]).pane_id != id by {
                assert(all[i].pane_id == id);
                assert(all[j].pane_id != id);
            }
        }
        lemma_filter_at_most_one(front, f, id);
        lemma_filter(front, f);
        let kept = front.filter(f);
        if f(last) {
            let r = kept.push(last);
            assert forall|i: int, j: int|
                0 <= i < j < r.len() && (#[trigger] r[i]).pane_id == id implies (
            #[trigger] r[j]).pane_id != id by {
                if j == kept.len() {
                    assert(kept.contains(kept[i]));
                    let k = front.index_of(kept[i]);
                    assert(all[k].pane_id == id);
                    assert(all[all.len() - 1].pane_id != id);
                } else {
                    assert(kept[i].pane_id == id);
                    assert(kept[j].pane_id != id);
                }
            }
        }
    }
}

/// Titles that settle leave no tab listed without a title, store no empty one and none elsewhere
/// than at its pane, and those of a pane that has none waiting or is on no known tab stay.
pub proof fn lemma_settled(s: StateView, waiting: Seq<PendingView>)
    ensures
        ({
            let after = pending::settled(s, waiting);
            &&& after.tabs == s.tabs && after.panes == s.panes
            &&& titles::compact(s.overrides) ==> titles::compact(after.overrides)
            &&& titles::compact(s.fallbacks) ==> titles::compact(after.fallbacks)
            &&& all_say_something(s.overrides) ==> all_say_something(after.overrides)
            &&& s.holds_in_place(s.overrides) ==> s.holds_in_place(after.overrides)
            &&& s.holds_in_place(s.fallbacks) ==> s.holds_in_place(after.fallbacks)
            &&& forall|q: usize, id: u32|
                !pending::waits(waiting, id) || titles::located(s.tabs, s.panes, id) is None
                    ==> #[trigger] tab_name::text_of(after.overrides, q, id)
                    == tab_name::text_of(s.overrides, q, id)
            &&& forall|q: usize, id: u32|
                !pending::waits(waiting, id) || titles::located(s.tabs, s.panes, id) is None
                    ==> #[trigger] tab_name::text_of(after.fallbacks, q, id)
                    == tab_name::text_of(s.fallbacks, q, id)
        }),
    decreases waiting.len(),
{
    if waiting.len() > 0 {
        let front = waiting.drop_last();
        let e = waiting.last();
        let mid = pending::settled(s, front);
        lemma_settled(s, front);
        if let Some(position) = titles::located(mid.tabs, mid.panes, e.pane_id) {
            titles::lemma_put(mid.overrides, position, e.pane_id, e.title);
            titles::lemma_without_at(mid.overrides, position, e.pane_id);
            if let Some(f) = e.project {
                titles::lemma_put(mid.fallbacks, position, e.pane_id, f);
            }
        }
        assert forall|id: u32| #[trigger] pending::waits(front, id) implies pending::waits(
            waiting,
            id,
        ) by {
            let i = choose|i: int| 0 <= i < front.len() && (#[trigger] front[i]).pane_id == id;
            assert(waiting[i].pane_id == id);
        }
        assert(pending::waits(waiting, e.pane_id)) by {
            assert(waiting[waiting.len() - 1].pane_id == e.pane_id);
        }
        let after = pending::settled(s, waiting);
        assert forall|q: usize, id: u32|
            !pending::waits(waiting, id) || titles::located(s.tabs, s.panes, id)
                is None implies #[trigger] tab_name::text_of(after.overrides, q, id)
            == tab_name::text_of(s.overrides, q, id) by {
            assert(tab_name::text_of(mid.overrides, q, id) == tab_name::text_of(
                s.overrides,
                q,
                id,
            ));
        }
        assert forall|q: usize, id: u32|
            !pending::waits(waiting, id) || titles::located(s.tabs, s.panes, id)
                is None implies #[trigger] tab_name::text_of(after.fallbacks, q, id)
            == tab_name::text_of(s.fallbacks, q, id) by {
            assert(tab_name::text_of(mid.fallbacks, q, id) == tab_name::text_of(
                s.fallbacks,
                q,
                id,
            ));
        }
    }
}

/// What a title that settles leaves of its pane, where no other one of the pane waits.
proof fn lemma_settled_entry(s: StateView, waiting: Seq<PendingView>, i: int, position: usize)
    requires
        0 <= i < waiting.len(),
        at_most_one(waiting, waiting[i].pane_id),
        titles::located(s.tabs, s.panes, waiting[i].pane_id) == Some(position),
    ensures
        ({
            let after = pending::settled(s, waiting);
            let e = waiting[i];
            &&& forall|q: usize| #[trigger]
                tab_name::text_of(after.overrides, q, e.pane_id) == (if q != position {
                    tab_name::text_of(s.overrides, q, e.pane_id)
                } else if e.title.len() == 0 {
                    None
                } else {
                    Some(e.title)
                })
            &&& forall|q: usize| #[trigger]
                tab_name::text_of(after.fallbacks, q, e.pane_id) == (if q == position
                    && e.title.len() > 0 && e.project is Some {
                    e.project
                } else {
                    tab_name::text_of(s.fallbacks, q, e.pane_id)
                })
        }),
    decreases waiting.len(),
{
    let front = waiting.drop_last();
    let last = waiting.last();
    let mid = pending::settled(s, front);
    let id = waiting[i].pane_id;
    lemma_settled(s, front);
    if let Some(at) = titles::located(mid.tabs, mid.panes, last.pane_id) {
        titles::lemma_put(mid.overrides, at, last.pane_id, last.title);
        titles::lemma_without_at(mid.overrides, at, last.pane_id);
        if let Some(f) = last.project {
            titles::lemma_put(mid.fallbacks, at, last.pane_id, f);
        }
    }
    if i < front.len() {
        assert(waiting[i].pane_id == id);
        assert(waiting[waiting.len() - 1].pane_id != id);
        assert(front[i] == waiting[i]);
        assert forall|j: int, k: int|
            0 <= j < k < front.len() && (#[trigger] front[j]).pane_id == id implies (
        #[trigger] front[k]).pane_id != id by {
            assert(waiting[j].pane_id == id);
            assert(waiting[k].pane_id != id);
        }
        lemma_settled_entry(s, front, i, position);
    } else {
        assert(!pending::waits(front, id)) by {
            if pending::waits(front, id) {
                let j = choose|j: int| 0 <= j < front.len() && (#[trigger] front[j]).pane_id == id;
                assert(waiting[j].pane_id == id);
                assert(waiting[i].pane_id != id);
            }
        }
    }
}

/// What is astray once the titles are set aside whose panes are at no known tab.
proof fn lemma_strays(
    s: StateView,
    strays: Seq<PendingView>,
    places: Seq<(usize, u32)>,
    id: u32,
)
    ensures
        ({
            let after = pending::with_strays(s, strays, places);
            let strayed = pending::astray(s.tabs, s.panes)(s.last_entry(id)) && exists|i: int|
                0 <= i < places.len() && (#[trigger] places[i]).1 == id;
            &&& forall|e: PendingView| strays.contains(e) ==> #[trigger] after.contains(e)
            &&& pending::waits(after, id) <==> pending::waits(strays, id) || strayed
            &&& pending::waits(after, id) && !pending::waits(strays, id) ==> after.contains(
                s.last_entry(id),
            )
            &&& at_most_one(strays, id) ==> at_most_one(after, id)
            &&& each_says_something(strays) && (forall|i: int|
                0 <= i < places.len() ==> s.last_entry((#[trigger] places[i]).1).title.len() > 0)
                ==> each_says_something(after)
        }),
    decreases places.len(),
{
    let after = pending::with_strays(s, strays, places);
    if places.len() > 0 {
        let front = places.drop_last();
        let last = places.last().1;
        let sofar = pending::with_strays(s, strays, front);
        lemma_strays(s, strays, front, id);
        if exists|i: int| 0 <= i < front.len() && (#[trigger] front[i]).1 == id {
            let i = choose|i: int| 0 <= i < front.len() && (#[trigger] front[i]).1 == id;
            assert(places[i].1 == id);
        }
        if exists|i: int| 0 <= i < places.len() && (#[trigger] places[i]).1 == id {
            let i = choose|i: int| 0 <= i < places.len() && (#[trigger] places[i]).1 == id;
            if i < front.len() {
                assert(front[i].1 == id);
            }
        }
        assert(places[places.len() - 1].1 == last);
        if forall|i: int|
            0 <= i < places.len() ==> s.last_entry((#[trigger] places[i]).1).title.len() > 0 {
            assert forall|i: int| 0 <= i < front.len() implies s.last_entry(
                (#[trigger] front[i]).1,
            ).title.len() > 0 by {
                assert(s.last_entry(places[i].1).title.len() > 0);
            }
            assert(s.last_entry(places[places.len() - 1].1).title.len() > 0);
        }
        if after != sofar {
            let e = s.last_entry(last);
            assert(after =~= sofar.push(e));
            assert(after[sofar.len() as int] == e);
            assert forall|x: PendingView| strays.contains(x) implies #[trigger] after.contains(
                x,
            ) by {
                assert(sofar.contains(x));
                assert(after[sofar.index_of(x)] == x);
            }
            if pending::waits(sofar, id) {
                let i = choose|i: int| 0 <= i < sofar.len() && (#[trigger] sofar[i]).pane_id == id;
                assert(after[i].pane_id == id);
            }
            if pending::waits(after, id) && id != last {
                let i = choose|i: int| 0 <= i < after.len() && (#[trigger] after[i]).pane_id == id;
                assert(sofar[i].pane_id == id);
            }
            if sofar.contains(s.last_entry(id)) {
                assert(after[sofar.index_of(s.last_entry(id))] == s.last_entry(id));
            }
            if at_most_one(strays, id) {
                assert forall|i: int, j: int|
                    0 <= i < j < after.len() && (#[trigger] after[i]).pane_id == id implies (
                #[trigger] after[j]).pane_id != id by {
                    assert(sofar[i].pane_id == id);
                    if j < sofar.len() {
                        assert(sofar[j].pane_id != id);
                    }
                }
            }
        }
    }
}

proof fn lemma_one_each(pending: Seq<PendingView>)
    ensures
        one_each(pending) <==> forall|id: u32| #[trigger] at_most_one(pending, id),
{
    if forall|id: u32| #[trigger] at_most_one(pending, id) {
        assert forall|i: int, j: int| 0 <= i < j < pending.len() implies (
        #[trigger] pending[i]).pane_id != (#[trigger] pending[j]).pane_id by {
            assert(at_most_one(pending, pending[i].pane_id));
        }
    }
}

/// A title that waited for its pane is given as soon as the pane is known, or takes the title of
/// the pane away if it is empty, and waits no longer.
pub proof fn law_waiting_title_is_given(p: PluginView, e: PendingView, position: usize)
    requires
        one_each(p.pending),
        p.pending.contains(e),
        p.tab_of(e.pane_id) == Some(position),
    ensures
        e.title.len() > 0 ==> p.resolved().has_title(position, e.pane_id, e.title, e.project),
        e.title.len() == 0 ==> tab_name::text_of(
            p.resolved().state.overrides,
            position,
            e.pane_id,
        ) is None,
        forall|i: int|
            0 <= i < p.resolved().pending.len() ==> (#[trigger] p.resolved().pending[i]).pane_id
                != e.pane_id,
{
    let i = p.pending.index_of(e);
    lemma_one_each(p.pending);
    assert(at_most_one(p.pending, e.pane_id));
    lemma_settled_entry(p.state, p.pending, i, position);
    lemma_filter(p.pending, pending::unplaced(p.state.tabs, p.state.panes));
}

/// What a title that waited leaves as the project of its pane.
pub proof fn lemma_waiting_project(p: PluginView, e: PendingView, position: usize)
    requires
        one_each(p.pending),
        p.pending.contains(e),
        e.title.len() > 0,
        p.tab_of(e.pane_id) == Some(position),
    ensures
        tab_name::text_of(p.resolved().state.fallbacks, position, e.pane_id) == (if e.project
            is Some {
            e.project
        } else {
            tab_name::text_of(p.state.fallbacks, position, e.pane_id)
        }),
{
    let i = p.pending.index_of(e);
    lemma_one_each(p.pending);
    assert(at_most_one(p.pending, e.pane_id));
    lemma_settled_entry(p.state, p.pending, i, position);
}

/// What becomes of a title that is kept when the tabs or the panes change: it stands at the tab that
/// holds its pane, is astray where a list of panes holds the pane at no known tab, and is given up
/// where none does.
proof fn lemma_carried(
    q: PluginView,
    plugin_id: u32,
    actions: Seq<ActionView>,
    id: u32,
    title: Seq<char>,
    project: Option<Seq<char>>,
)
    requires
        title.len() > 0,
        q.carries(id, title, project),
    ensures
        ({
            let after = q.arranged(plugin_id, actions).0;
            &&& after.state.tabs == q.state.tabs
            &&& after.state.panes == q.state.panes
            &&& match q.tab_of(id) {
                Some(at) => after.stands(at, id, title, project),
                None => if titles::listed(q.state.panes, id) {
                    after.has_stray(id, title, project)
                } else {
                    after.is_rid_of(id) && !pending::waits(after.pending, id)
                },
            }
        }),
{
    let e = PendingView { pane_id: id, title, project };
    let s = q.state;
    let places = ordered::listing(titles::places(s.overrides));
    let strays = pending::with_strays(s, q.strays, places);
    let m = s.rebuilt();
    let f = pending::astray(s.tabs, s.panes);
    let g = pending::unplaced(s.tabs, s.panes);
    let after = q.arranged(plugin_id, actions).0;
    let t = PluginView { state: m.refreshed(plugin_id), strays, ..q }.stale(UpdateEventMask::Tab);
    let u = t.returned();
    ordered::lemma_listed(titles::places(s.overrides));
    lemma_strays(s, q.strays, places, id);
    titles::lemma_moved(s.overrides, s.tabs, s.panes);
    titles::lemma_moved(s.fallbacks, s.tabs, s.panes);
    lemma_settled(t.state, strays);
    lemma_settled(u.state, q.pending);
    lemma_filter(strays, f);
    lemma_filter(q.pending, g);
    assert(after.state.overrides == pending::settled(u.state, q.pending).overrides);
    assert(after.state.fallbacks == pending::settled(u.state, q.pending).fallbacks);
    assert(after.strays == strays.filter(f));
    assert(after.pending == q.pending.filter(g));
    assert(!pending::waits(q.pending, id));
    assert(!pending::waits(after.pending, id)) by {
        if pending::waits(after.pending, id) {
            let k = choose|k: int|
                0 <= k < after.pending.len() && (#[trigger] after.pending[k]).pane_id == id;
            assert(after.pending.contains(after.pending[k]));
            let j = q.pending.index_of(after.pending[k]);
            assert(q.pending[j].pane_id == id);
        }
    }
    if q.has_stray(id, title, project) {
        let i = q.strays.index_of(e);
        assert(q.strays[i].pane_id == id);
        assert(pending::waits(q.strays, id));
        assert(strays.contains(e));
        assert forall|y: usize| #[trigger] tab_name::text_of(m.overrides, y, id) is None
            && tab_name::text_of(m.fallbacks, y, id) is None by {
            assert(!titles::lands(s.overrides, s.tabs, s.panes, y, id));
            assert(!titles::lands(s.fallbacks, s.tabs, s.panes, y, id));
        }
    } else {
        let before = choose|y: usize| #[trigger] q.stands(y, id, title, project);
        assert(tab_name::text_of(s.overrides, before, id) == Some(title));
        titles::law_texts_follow_panes(s.overrides, s.tabs, s.panes, before, id);
        if project is Some {
            assert(tab_name::text_of(s.fallbacks, before, id) == project);
            titles::law_texts_follow_panes(s.fallbacks, s.tabs, s.panes, before, id);
        } else {
            assert forall|y: usize| #[trigger] tab_name::text_of(s.fallbacks, y, id) is None by {}
            assert(!titles::has_text(s.fallbacks, id));
        }
        assert(titles::places(s.overrides).contains((before, id)));
        let i = places.index_of((before, id));
        assert(places[i].1 == id);
        lemma_last_entry(q, before, id, title, project);
    }
    match q.tab_of(id) {
        Some(at) => {
            lemma_none_left(strays, f, id);
            if q.has_stray(id, title, project) {
                let k = strays.index_of(e);
                lemma_settled_entry(t.state, strays, k, at);
                assert forall|y: usize| #[trigger]
                    tab_name::text_of(u.state.fallbacks, y, id) == (if y == at {
                        project
                    } else {
                        None
                    }) by {
                    assert(tab_name::text_of(m.overrides, y, id) is None);
                }
                assert forall|y: usize| #[trigger]
                    tab_name::text_of(u.state.overrides, y, id) == (if y == at {
                        Some(title)
                    } else {
                        None
                    }) by {
                    assert(tab_name::text_of(m.overrides, y, id) is None);
                }
            }
            assert forall|y: usize| #[trigger]
                tab_name::text_of(after.state.overrides, y, id) == (if y == at {
                    Some(title)
                } else {
                    None
                }) by {
                assert(tab_name::text_of(u.state.overrides, y, id) == tab_name::text_of(
                    after.state.overrides,
                    y,
                    id,
                ));
            }
            assert(after.stands(at, id, title, project));
        },
        None => {
            assert(at_most_one(q.strays, id));
            lemma_filter_at_most_one(strays, f, id);
            assert(f(e) <==> titles::listed(s.panes, id));
            if !titles::listed(s.panes, id) {
                lemma_none_left(strays, f, id);
            }
            assert forall|y: usize| #[trigger] tab_name::text_of(after.state.overrides, y, id)
                is None by {
                assert(tab_name::text_of(m.overrides, y, id) is None);
                assert(tab_name::text_of(u.state.overrides, y, id) is None);
            }
            assert forall|y: usize| #[trigger] tab_name::text_of(after.state.fallbacks, y, id)
                is None by {
                assert(tab_name::text_of(m.fallbacks, y, id) is None);
                assert(tab_name::text_of(u.state.fallbacks, y, id) is None);
            }
        },
    }
}

/// A filter that passes no title of the pane `id` leaves none.
proof fn lemma_none_left(all: Seq<PendingView>, f: spec_fn(PendingView) -> bool, id: u32)
    requires
        forall|e: PendingView| e.pane_id == id ==> !#[trigger] f(e),
    ensures
        !pending::waits(all.filter(f), id),
{
    lemma_filter(all, f);
    if pending::waits(all.filter(f), id) {
        let k = choose|k: int|
            0 <= k < all.filter(f).len() && (#[trigger] all.filter(f)[k]).pane_id == id;
        assert(f(all.filter(f)[k]));
    }
}

/// A title that stands at one position is the one that stands last.
proof fn lemma_last_entry(
    q: PluginView,
    before: usize,
    id: u32,
    title: Seq<char>,
    project: Option<Seq<char>>,
)
    requires
        q.stands(before, id, title, project),
    ensures
        q.state.last_entry(id) == (PendingView { pane_id: id, title, project }),
{
    assert(tab_name::text_of(q.state.overrides, before, id) is Some);
    titles::lemma_last_position_holds(q.state.overrides, id);
    if project is Some {
        assert(tab_name::text_of(q.state.fallbacks, before, id) is Some);
        titles::lemma_last_position_holds(q.state.fallbacks, id);
    } else {
        assert forall|y: usize| #[trigger] tab_name::text_of(q.state.fallbacks, y, id) is None by {}
    }
}

/// When the tabs change, the title of a pane follows the pane, and the project with it: it stands
/// at the position of the first tab that holds the pane and nowhere else. Where a list of panes
/// holds the pane at no known tab, the title is set aside, and where none does, it is given up.
pub proof fn law_titles_follow_their_panes(
    p: PluginView,
    tabs: Seq<TabView>,
    plugin_id: u32,
    before: usize,
    id: u32,
    title: Seq<char>,
    project: Option<Seq<char>>,
)
    requires
        p.state.tabs != tabs,
        title.len() > 0,
        p.stands(before, id, title, project),
    ensures
        ({
            let after = p.handled(EventView::TabUpdate(tabs), plugin_id).0;
            match titles::located(tabs, p.state.panes, id) {
                Some(at) => after.stands(at, id, title, project),
                None => if titles::listed(p.state.panes, id) {
                    after.has_stray(id, title, project)
                } else {
                    after.is_rid_of(id)
                },
            }
        }),
{
    let q = PluginView {
        state: StateView { tabs, ..p.state },
        last_tab_count: tabs.len() as usize,
        ..p
    };
    assert(q.stands(before, id, title, project));
    lemma_carried(q, plugin_id, p.announced(tabs), id, title, project);
}

proof fn lemma_given_up(q: PluginView, plugin_id: u32, actions: Seq<ActionView>, id: u32)
    requires
        !titles::listed(q.state.panes, id),
    ensures
        q.arranged(plugin_id, actions).0.is_rid_of(id),
{
    let s = q.state;
    let moved = q.relocated();
    let t = PluginView { state: moved.state.refreshed(plugin_id), ..moved }.stale(
        UpdateEventMask::Tab,
    );
    let u = t.returned();
    let after = q.arranged(plugin_id, actions).0;
    titles::lemma_located(s.tabs, s.panes, id);
    titles::lemma_moved(s.overrides, s.tabs, s.panes);
    titles::lemma_moved(s.fallbacks, s.tabs, s.panes);
    lemma_settled(t.state, t.strays);
    lemma_settled(u.state, u.pending);
    lemma_none_left(t.strays, pending::astray(s.tabs, s.panes), id);
    assert forall|y: usize| #[trigger] tab_name::text_of(after.state.overrides, y, id) is None by {
        assert(tab_name::text_of(t.state.overrides, y, id) is None);
        assert(tab_name::text_of(u.state.overrides, y, id) is None);
    }
    assert forall|y: usize| #[trigger] tab_name::text_of(after.state.fallbacks, y, id) is None by {
        assert(tab_name::text_of(t.state.fallbacks, y, id) is None);
        assert(tab_name::text_of(u.state.fallbacks, y, id) is None);
    }
}

/// The title of a pane that was closed is given up: after other lists of panes came, or other tabs,
/// nothing of a pane that no list holds stands anywhere or is astray.
pub proof fn law_titles_of_closed_panes_are_given_up(
    p: PluginView,
    tabs: Seq<TabView>,
    panes: Map<usize, Seq<PaneView>>,
    plugin_id: u32,
    id: u32,
)
    ensures
        p.state.panes != panes && !titles::listed(panes, id) ==> p.handled(
            EventView::PaneUpdate(panes),
            plugin_id,
        ).0.is_rid_of(id),
        p.state.tabs != tabs && !titles::listed(p.state.panes, id) ==> p.handled(
            EventView::TabUpdate(tabs),
            plugin_id,
        ).0.is_rid_of(id),
{
    if p.state.panes != panes && !titles::listed(panes, id) {
        let q = PluginView { state: StateView { panes, ..p.state }, ..p };
        lemma_given_up(q, plugin_id, seq![ActionView::HideFrames], id);
    }
    if p.state.tabs != tabs && !titles::listed(p.state.panes, id) {
        let q = PluginView {
            state: StateView { tabs, ..p.state },
            last_tab_count: tabs.len() as usize,
            ..p
        };
        lemma_given_up(q, plugin_id, p.announced(tabs), id);
    }
}

/// Tabs that change leave a title kept whose pane is in a list, and with the tab that holds its
/// pane as far as is known.
proof fn lemma_tabs_carry(
    p: PluginView,
    tabs: Seq<TabView>,
    plugin_id: u32,
    id: u32,
    title: Seq<char>,
    project: Option<Seq<char>>,
)
    requires
        title.len() > 0,
        p.carries(id, title, project),
        p.state.tabs == tabs || titles::listed(p.state.panes, id),
    ensures
        ({
            let after = p.handled(EventView::TabUpdate(tabs), plugin_id).0;
            &&& after.state.tabs == tabs
            &&& after.state.panes == p.state.panes
            &&& after.carries(id, title, project)
            &&& p.state.tabs == tabs ==> after == p
            &&& p.state.tabs != tabs ==> match titles::located(tabs, p.state.panes, id) {
                Some(at) => after.stands(at, id, title, project),
                None => true,
            }
        }),
{
    if p.state.tabs != tabs {
        let q = PluginView {
            state: StateView { tabs, ..p.state },
            last_tab_count: tabs.len() as usize,
            ..p
        };
        lemma_same_texts_carry(p, q, id, title, project);
        lemma_carried(q, plugin_id, p.announced(tabs), id, title, project);
    }
}

/// Panes that change leave a title kept whose pane is in a list, and with the tab that holds its
/// pane as far as is known.
proof fn lemma_panes_carry(
    p: PluginView,
    panes: Map<usize, Seq<PaneView>>,
    plugin_id: u32,
    id: u32,
    title: Seq<char>,
    project: Option<Seq<char>>,
)
    requires
        title.len() > 0,
        p.carries(id, title, project),
        titles::listed(panes, id),
    ensures
        ({
            let after = p.handled(EventView::PaneUpdate(panes), plugin_id).0;
            &&& after.state.tabs == p.state.tabs
            &&& after.state.panes == panes
            &&& after.carries(id, title, project)
            &&& p.state.panes == panes ==> after == p
            &&& p.state.panes != panes ==> match titles::located(p.state.tabs, panes, id) {
                Some(at) => after.stands(at, id, title, project),
                None => true,
            }
        }),
{
    if p.state.panes != panes {
        let q = PluginView { state: StateView { panes, ..p.state }, ..p };
        lemma_same_texts_carry(p, q, id, title, project);
        lemma_carried(q, plugin_id, seq![ActionView::HideFrames], id, title, project);
    }
}

/// Whether a title is kept is a matter of the texts and of what waits alone.
proof fn lemma_same_texts_carry(
    p: PluginView,
    q: PluginView,
    id: u32,
    title: Seq<char>,
    project: Option<Seq<char>>,
)
    requires
        p.carries(id, title, project),
        q.state.overrides == p.state.overrides,
        q.state.fallbacks == p.state.fallbacks,
        q.pending == p.pending,
        q.strays == p.strays,
    ensures
        q.carries(id, title, project),
{
    if !p.has_stray(id, title, project) {
        let y = choose|y: usize| #[trigger] p.stands(y, id, title, project);
        assert(q.stands(y, id, title, project));
    }
}

/// The tabs and the panes change together but are told one after the other. In whichever order,
/// the title of a pane and its project stand at the new position of the pane once both are told.
///
/// Where neither is news, nothing moves, so the title has to be in its place already. Where the tabs
/// are told first, the pane has to be in a list of panes until then, else its title is given up.
pub proof fn law_titles_outlive_a_late_manifest(
    p: PluginView,
    tabs: Seq<TabView>,
    panes: Map<usize, Seq<PaneView>>,
    plugin_id: u32,
    before: usize,
    id: u32,
    at: usize,
)
    requires
        match tab_name::text_of(p.state.overrides, before, id) {
            Some(title) => title.len() > 0,
            None => false,
        },
        forall|q: usize| #[trigger]
            tab_name::text_of(p.state.overrides, q, id) is Some ==> q == before,
        forall|q: usize| #[trigger]
            tab_name::text_of(p.state.fallbacks, q, id) is Some ==> q == before,
        !pending::waits(p.pending, id),
        !pending::waits(p.strays, id),
        titles::located(tabs, panes, id) == Some(at),
        p.state.tabs == tabs && p.state.panes == panes ==> before == at,
    ensures
        ({
            let title = tab_name::text_of(p.state.overrides, before, id)->0;
            let project = tab_name::text_of(p.state.fallbacks, before, id);
            let tabs_first = p.handled(EventView::TabUpdate(tabs), plugin_id).0.handled(
                EventView::PaneUpdate(panes),
                plugin_id,
            ).0;
            let panes_first = p.handled(EventView::PaneUpdate(panes), plugin_id).0.handled(
                EventView::TabUpdate(tabs),
                plugin_id,
            ).0;
            &&& p.state.tabs == tabs || titles::listed(p.state.panes, id) ==> {
                &&& tabs_first.has_title(at, id, title, project)
                &&& tabs_first.stands(at, id, title, project)
            }
            &&& panes_first.has_title(at, id, title, project)
            &&& panes_first.stands(at, id, title, project)
        }),
{
    let title = tab_name::text_of(p.state.overrides, before, id)->0;
    let project = tab_name::text_of(p.state.fallbacks, before, id);
    assert(p.stands(before, id, title, project));
    titles::lemma_located(tabs, panes, id);
    if p.state.tabs == tabs || titles::listed(p.state.panes, id) {
        let a = p.handled(EventView::TabUpdate(tabs), plugin_id).0;
        lemma_tabs_carry(p, tabs, plugin_id, id, title, project);
        lemma_panes_carry(a, panes, plugin_id, id, title, project);
    }
    let b = p.handled(EventView::PaneUpdate(panes), plugin_id).0;
    lemma_panes_carry(p, panes, plugin_id, id, title, project);
    lemma_tabs_carry(b, tabs, plugin_id, id, title, project);
}

/// A plugin that was not loaded yet is sound.
pub proof fn law_start_is_sound()
    ensures
        life::unloaded().sound(),
{
}

/// A plugin that knows nothing yet and has no event waiting and no title astray, as loading leaves
/// it, is sound if no pane has two titles waiting.
pub proof fn law_loading_is_sound(p: PluginView, uuid: Seq<char>)
    requires
        p.state == state::blank(uuid),
        p.pending_events.len() == 0,
        p.strays.len() == 0,
        one_each(p.pending),
    ensures
        p.sound(),
{
}

/// Messages keep the plugin sound.
pub proof fn law_messages_keep_soundness(p: PluginView, m: MessageView)
    requires
        p.sound(),
    ensures
        p.piped(m).0.sound(),
{
    if let (Some(title), Some(id)) = (m.payload, messages::named_pane(m)) {
        let project = m.arg("fallback"@);
        titles::law_without_takes_one_pane(p.state.overrides, id);
        titles::law_without_takes_one_pane(p.state.fallbacks, id);
        lemma_filter(p.pending, pending::of_others(id));
        let others = p.pending.filter(pending::of_others(id));
        assert forall|i: int| 0 <= i < others.len() implies p.tab_of(
            (#[trigger] others[i]).pane_id,
        ) is None by {
            assert(others.contains(others[i]));
            let k = p.pending.index_of(others[i]);
            assert(p.tab_of(p.pending[k].pane_id) is None);
        }
        if let Some(position) = p.tab_of(id) {
            titles::lemma_put(p.state.overrides, position, id, title);
            if let Some(f) = project {
                titles::lemma_put(p.state.fallbacks, position, id, f);
            }
        }
        let after = p.piped(m).0;
        assert(after.state.tabs == p.state.tabs && after.state.panes == p.state.panes);
        assert forall|i: int| 0 <= i < after.pending.len() implies after.tab_of(
            (#[trigger] after.pending[i]).pane_id,
        ) is None by {
            if after.pending == p.pending {
                assert(p.tab_of(p.pending[i].pane_id) is None);
            } else if i < others.len() {
                assert(p.tab_of(others[i].pane_id) is None);
            }
        }
        let f = pending::astray(p.state.tabs, p.state.panes);
        lemma_filter(p.strays, pending::of_others(id));
        assert forall|i: int| 0 <= i < after.strays.len() implies f(#[trigger] after.strays[i])
            && after.strays[i].title.len() > 0 by {
            let e = after.strays[i];
            assert(after.strays.contains(e));
            let k = p.strays.index_of(e);
            assert(f(p.strays[k]));
        }
    }
}

/// Titles that are given where their panes are leave the plugin sound.
pub proof fn lemma_resolved_sound(p: PluginView)
    requires
        p.tidy(),
        p.state.holds_in_place(p.state.overrides),
        p.state.holds_in_place(p.state.fallbacks),
        forall|i: int|
            0 <= i < p.strays.len() ==> pending::astray(p.state.tabs, p.state.panes)(
                #[trigger] p.strays[i],
            ),
    ensures
        p.resolved().sound(),
{
    let f = pending::unplaced(p.state.tabs, p.state.panes);
    lemma_settled(p.state, p.pending);
    lemma_filter(p.pending, f);
    let after = p.resolved();
    assert forall|i: int| 0 <= i < after.pending.len() implies after.tab_of(
        (#[trigger] after.pending[i]).pane_id,
    ) is None by {
        assert(f(p.pending.filter(f)[i]));
    }
}

/// Whatever the tabs and panes are, a tidy plugin is sound once they are taken in.
proof fn lemma_arranged_sound(p: PluginView, plugin_id: u32, actions: Seq<ActionView>)
    requires
        p.tidy(),
    ensures
        p.arranged(plugin_id, actions).0.sound(),
{
    let s = p.state;
    let moved = p.relocated();
    titles::lemma_moved(s.overrides, s.tabs, s.panes);
    titles::lemma_moved(s.fallbacks, s.tabs, s.panes);
    assert(all_say_something(moved.state.overrides)) by {
        assert forall|at: usize, id: u32|
            match #[trigger] tab_name::text_of(moved.state.overrides, at, id) {
                Some(t) => t.len() > 0,
                None => true,
            } by {
            if tab_name::text_of(moved.state.overrides, at, id) is Some {
                titles::lemma_last_position_holds(s.overrides, id);
            }
        }
    }
    let places = ordered::listing(titles::places(s.overrides));
    ordered::lemma_listed(titles::places(s.overrides));
    assert forall|i: int| 0 <= i < places.len() implies s.last_entry(
        (#[trigger] places[i]).1,
    ).title.len() > 0 by {
        assert(places.contains(places[i]));
        assert(titles::places(s.overrides).contains(places[i]));
        assert(tab_name::text_of(s.overrides, places[i].0, places[i].1) is Some);
        titles::lemma_last_position_holds(s.overrides, places[i].1);
    }
    lemma_strays(s, p.strays, places, 0);
    lemma_one_each(p.strays);
    lemma_one_each(moved.strays);
    assert forall|id: u32| #[trigger] at_most_one(moved.strays, id) by {
        assert(at_most_one(p.strays, id));
        lemma_strays(s, p.strays, places, id);
    }
    let t = PluginView { state: moved.state.refreshed(plugin_id), ..moved }.stale(
        UpdateEventMask::Tab,
    );
    let f = pending::astray(s.tabs, s.panes);
    let u = t.returned();
    lemma_settled(t.state, t.strays);
    lemma_filter(t.strays, f);
    assert forall|i: int| 0 <= i < u.strays.len() implies (#[trigger] u.strays[i]).title.len()
        > 0 by {
        assert(u.strays.contains(u.strays[i]));
        let k = t.strays.index_of(u.strays[i]);
        assert(t.strays[k].title.len() > 0);
    }
    lemma_resolved_sound(u);
}

/// Events keep the plugin sound.
pub proof fn law_events_keep_soundness(p: PluginView, ev: EventView, plugin_id: u32)
    requires
        p.sound(),
    ensures
        p.handled(ev, plugin_id).0.sound(),
{
    match ev {
        EventView::PaneUpdate(panes) => {
            let q = PluginView { state: StateView { panes, ..p.state }, ..p };
            lemma_arranged_sound(q, plugin_id, seq![ActionView::HideFrames]);
        },
        EventView::TabUpdate(tabs) => {
            let q = PluginView {
                state: StateView { tabs, ..p.state },
                last_tab_count: tabs.len() as usize,
                ..p
            };
            lemma_arranged_sound(q, plugin_id, p.announced(tabs));
        },
        _ => {
            let after = p.handled(ev, plugin_id).0;
            assert(after.state.tabs == p.state.tabs && after.state.panes == p.state.panes);
            assert(after.pending == p.pending && after.strays == p.strays);
            assert forall|i: int| 0 <= i < after.pending.len() implies after.tab_of(
                (#[trigger] after.pending[i]).pane_id,
            ) is None by {
                assert(p.tab_of(p.pending[i].pane_id) is None);
            }
        },
    }
}

/// What waits and what is due is, at every event, what waited before and the event itself: no
/// event is lost, and none is handled twice.
pub proof fn law_no_event_is_lost(p: PluginView, ev: EventView)
    requires
        p.sound(),
    ensures
        p.updated(ev).0.sound(),
        p.updated(ev).0.pending_events.to_multiset().add(p.updated(ev).1.to_multiset())
            =~= p.pending_events.to_multiset().insert(ev),
{
    broadcast use vstd::seq_lib::group_to_multiset_ensures;
    let waited = p.pending_events;
    if ev == EventView::PermissionRequestResult(true) {
        lemma_reversed(waited);
        assert(waited.reverse().push(ev).to_multiset() =~= waited.reverse().to_multiset().insert(
            ev,
        ));
    } else if p.got_permissions {
        assert(seq![ev] =~= Seq::<EventView>::empty().push(ev));
    }
}

/// The members of a list are those of the list read backwards.
proof fn lemma_reversed(s: Seq<EventView>)
    ensures
        s.reverse().to_multiset() =~= s.to_multiset(),
    decreases s.len(),
{
    broadcast use vstd::seq_lib::group_to_multiset_ensures;
    if s.len() == 0 {
        assert(s.reverse() =~= s);
    } else {
        let rest = s.drop_first();
        lemma_reversed(rest);
        assert(s.reverse() =~= rest.reverse().push(s[0]));
        assert(s =~= seq![s[0]] + rest);
        vstd::seq_lib::lemma_multiset_commutative(seq![s[0]], rest);
        assert(seq![s[0]] =~= Seq::<EventView>::empty().push(s[0]));
    }
}

/// A request for a timer event.
pub open spec fn is_timeout() -> spec_fn(ActionView) -> bool {
    |a: ActionView| a is SetTimeout
}

/// The number of timer events that are asked for.
pub open spec fn timeouts_in(outcome: OutcomeView) -> nat {
    search::tally(outcome.actions, is_timeout())
}

/// The number of timer events that the plugin takes to be on their way.
pub open spec fn awaited(p: PluginView) -> int {
    if p.timer_active {
        1
    } else {
        0
    }
}

proof fn lemma_no_timeouts(actions: Seq<ActionView>)
    requires
        forall|i: int| 0 <= i < actions.len() ==> !(#[trigger] actions[i] is SetTimeout),
    ensures
        search::tally(actions, is_timeout()) == 0,
    decreases actions.len(),
{
    if actions.len() > 0 {
        lemma_no_timeouts(actions.drop_last());
    }
}

proof fn lemma_timeouts_after(actions: Seq<ActionView>, p: PluginView)
    requires
        forall|i: int| 0 <= i < actions.len() ==> !(#[trigger] actions[i] is SetTimeout),
    ensures
        search::tally(actions + p.timeouts(), is_timeout()) == awaited(p.timed()) - awaited(p),
{
    lemma_no_timeouts(actions);
    let all = actions + p.timeouts();
    if p.timeouts().len() == 0 {
        assert(all =~= actions);
    } else {
        assert(all.drop_last() =~= actions);
    }
}

/// While the plugin takes a timer event to be on its way, one is, and never two: what it asks for
/// at an event makes up for the timer event that came and for those that it waits for from then on.
pub proof fn law_one_timer_over_events(p: PluginView, ev: EventView, plugin_id: u32)
    requires
        ev is Timer ==> p.timer_active,
    ensures
        awaited(p.handled(ev, plugin_id).0) == awaited(p) - (if ev is Timer {
            1int
        } else {
            0int
        }) + timeouts_in(p.handled(ev, plugin_id).1),
{
    let after = p.handled(ev, plugin_id).0;
    let asked = p.handled(ev, plugin_id).1;
    match ev {
        EventView::PaneUpdate(panes) => {
            if p.state.panes != panes {
                let q = PluginView { state: StateView { panes, ..p.state }, ..p };
                let moved = q.relocated();
                let next = PluginView {
                    state: moved.state.refreshed(plugin_id),
                    ..moved
                }.stale(UpdateEventMask::Tab).returned().resolved();
                lemma_timeouts_after(seq![ActionView::HideFrames], next);
            } else {
                lemma_no_timeouts(asked.actions);
            }
        },
        EventView::TabUpdate(tabs) => {
            if p.state.tabs != tabs {
                let q = PluginView {
                    state: StateView { tabs, ..p.state },
                    last_tab_count: tabs.len() as usize,
                    ..p
                };
                let moved = q.relocated();
                let next = PluginView {
                    state: moved.state.refreshed(plugin_id),
                    ..moved
                }.stale(UpdateEventMask::Tab).returned().resolved();
                lemma_timeouts_after(p.announced(tabs), next);
            } else {
                lemma_no_timeouts(asked.actions);
            }
        },
        EventView::Timer => {
            if asked.actions.len() > 0 {
                assert(asked.actions.drop_last() =~= Seq::empty());
            }
            lemma_no_timeouts(Seq::empty());
        },
        _ => {
            lemma_no_timeouts(asked.actions);
        },
    }
}

/// A message keeps it that way: it asks for a timer event only where none is on its way.
pub proof fn law_one_timer_over_messages(p: PluginView, m: MessageView)
    ensures
        awaited(p.piped(m).0) == awaited(p) + timeouts_in(p.piped(m).1),
{
    let asked = p.piped(m).1;
    if m.name == "title"@ {
        if let (Some(title), Some(id)) = (m.payload, messages::named_pane(m)) {
            if let Some(position) = p.tab_of(id) {
                let project = m.arg("fallback"@);
                let next = PluginView {
                    state: pending::titled(p.state, position, id, title, project),
                    ..p
                };
                lemma_timeouts_after(Seq::empty(), p);
                lemma_timeouts_after(Seq::empty(), next);
                assert(Seq::empty() + p.timeouts() =~= p.timeouts());
                assert(Seq::empty() + next.timeouts() =~= next.timeouts());
            }
        }
        if asked.actions.len() == 0 {
            lemma_no_timeouts(asked.actions);
        }
    } else {
        lemma_no_timeouts(asked.actions);
    }
}

/// While a title holds a spinner, every timer event turns it to its next character, has the bar
/// drawn again, and asks for the next timer event.
pub proof fn law_spinners_keep_turning(p: PluginView, plugin_id: u32)
    requires
        titles::spins(p.state.overrides),
    ensures
        ({
            let after = p.handled(EventView::Timer, plugin_id).0;
            let asked = p.handled(EventView::Timer, plugin_id).1;
            &&& tab_name::spinner_frame(after.state.spinner_idx as nat) == tab_name::spinner_frame(
                p.state.spinner_idx as nat + 1,
            )
            &&& after.state.overrides == p.state.overrides
            &&& asked.render
            &&& timeouts_in(asked) == 1
        }),
{
    tab_name::law_spinner_turns(p.state.spinner_idx);
    let asked = p.handled(EventView::Timer, plugin_id).1;
    assert(asked.actions.drop_last() =~= Seq::empty());
    lemma_no_timeouts(Seq::empty());
}

proof fn lemma_title_message(
    session: Seq<char>,
    id: u32,
    title: Seq<char>,
    project: Option<Seq<char>>,
)
    ensures
        ({
            let m = broadcast::title_message(session, id, title, project);
            &&& messages::named_pane(m) == Some(id)
            &&& m.arg("session"@) == Some(session)
            &&& m.arg("fallback"@) == (match project {
                Some(f) => if f.len() > 0 {
                    Some(f)
                } else {
                    None
                },
                None => None,
            })
        }),
{
    reveal_strlit("pane_id");
    reveal_strlit("session");
    reveal_strlit("fallback");
    assert("pane_id"@[0] != "session"@[0]);
    assert("pane_id"@[0] != "fallback"@[0]);
    assert("session"@[0] != "fallback"@[0]);
    number::law_numeral_reads_back(id as nat, u32::MAX as nat);
}

/// Every title is in the messages that one instance sends to the others, and an instance of the
/// same session that gets them has the title afterwards, with the project that went with it: with
/// the tab of the pane, or waiting for the pane.
pub proof fn law_broadcast_gives_every_title(
    sender: StateView,
    receiver: PluginView,
    session: Seq<char>,
    position: usize,
    id: u32,
)
    requires
        sender.session == Some(session),
        receiver.state.session is None || receiver.state.session == Some(session),
        all_say_something(sender.overrides),
        tab_name::text_of(sender.overrides, position, id) is Some,
    ensures
        ({
            let m = sender.message_at(session, (position, id));
            let title = tab_name::text_of(sender.overrides, position, id)->0;
            let project = sent_project(sender, id);
            &&& sender.broadcast().contains(ActionView::Send(m))
            &&& match receiver.tab_of(id) {
                Some(at) => receiver.piped(m).0.has_title(at, id, title, project),
                None => receiver.piped(m).0.pending.contains(
                    (PendingView { pane_id: id, title, project }),
                ),
            }
        }),
{
    let place = (position, id);
    let m = sender.message_at(session, place);
    let title = tab_name::text_of(sender.overrides, position, id)->0;
    let places = ordered::listing(titles::places(sender.overrides));
    ordered::lemma_listed(titles::places(sender.overrides));
    assert(titles::places(sender.overrides).contains(place));
    let i = places.index_of(place);
    assert(sender.broadcast()[i] == ActionView::Send(m));
    lemma_title_message(session, id, title, titles::first_text(sender.fallbacks, id));
    assert(is_title(receiver, m, id, title));
    match receiver.tab_of(id) {
        Some(at) => {
            law_title_is_given(receiver, m, id, title, at);
        },
        None => {
            law_title_waits(receiver, m, id, title);
        },
    }
}

/// The project of the pane `id` that goes out with its title: the one that the pane has, unless it
/// is empty.
pub open spec fn sent_project(sender: StateView, id: u32) -> Option<Seq<char>> {
    match titles::first_text(sender.fallbacks, id) {
        Some(f) => if f.len() > 0 {
            Some(f)
        } else {
            None
        },
        None => None,
    }
}

/// What an instance has that knew of no title and got the first `n` messages.
proof fn lemma_told(
    sender: StateView,
    receiver: PluginView,
    session: Seq<char>,
    places: Seq<(usize, u32)>,
    n: int,
)
    requires
        receiver.state.session is None || receiver.state.session == Some(session),
        receiver.state.tabs == sender.tabs,
        receiver.state.panes == sender.panes,
        receiver.state.overrides == Map::<usize, Map<u32, Seq<char>>>::empty(),
        receiver.state.fallbacks == Map::<usize, Map<u32, Seq<char>>>::empty(),
        ordered::lists(places, titles::places(sender.overrides)),
        all_say_something(sender.overrides),
        sender.holds_in_place(sender.overrides),
        0 <= n <= places.len(),
    ensures
        ({
            let (now, asked) = receiver.told(sender.sends(session, places.take(n)));
            &&& now.state.session == receiver.state.session
            &&& now.state.tabs == sender.tabs
            &&& now.state.panes == sender.panes
            &&& titles::compact(now.state.overrides)
            &&& forall|q: usize, id: u32| #[trigger]
                tab_name::text_of(now.state.overrides, q, id) == (if places.take(n).contains(
                    (q, id),
                ) {
                    tab_name::text_of(sender.overrides, q, id)
                } else {
                    None
                })
            &&& forall|q: usize, id: u32| #[trigger]
                tab_name::text_of(now.state.fallbacks, q, id) == (if places.take(n).contains(
                    (q, id),
                ) {
                    sent_project(sender, id)
                } else {
                    None
                })
            &&& asked.render == (n > 0)
        }),
    decreases n,
{
    let front = places.take(n);
    if n > 0 {
        let place = places[n - 1];
        let (position, id) = place;
        let title = sender.overrides[position][id];
        let project = sent_project(sender, id);
        let m = sender.message_at(session, place);
        let before = receiver.told(sender.sends(session, places.take(n - 1))).0;
        let now = receiver.told(sender.sends(session, front)).0;
        lemma_told(sender, receiver, session, places, n - 1);
        assert(sender.sends(session, front).drop_last() =~= sender.sends(
            session,
            places.take(n - 1),
        ));
        assert(sender.sends(session, front).last() == ActionView::Send(m));
        assert(places.contains(place));
        assert(titles::places(sender.overrides).contains(place));
        assert(tab_name::text_of(sender.overrides, position, id) == Some(title));
        lemma_title_message(session, id, title, titles::first_text(sender.fallbacks, id));
        assert(before.tab_of(id) == Some(position));
        assert(!places.take(n - 1).contains(place)) by {
            if places.take(n - 1).contains(place) {
                let i = places.take(n - 1).index_of(place);
                assert(places[i].rank() < places[n - 1].rank());
            }
        }
        assert(tab_name::text_of(before.state.overrides, position, id) is None);
        titles::lemma_put(before.state.overrides, position, id, title);
        if let Some(f) = project {
            titles::lemma_put(before.state.fallbacks, position, id, f);
        }
        assert forall|k: (usize, u32)| #[trigger] front.contains(k) <==> (places.take(
            n - 1,
        ).contains(k) || k == place) by {
            if places.take(n - 1).contains(k) {
                assert(front[places.take(n - 1).index_of(k)] == k);
            }
            if k == place {
                assert(front[n - 1] == k);
            }
            if front.contains(k) {
                let i = front.index_of(k);
                if i < n - 1 {
                    assert(places.take(n - 1)[i] == k);
                }
            }
        }
        assert(tab_name::text_of(before.state.fallbacks, position, id) is None);
    }
}

/// An instance that gets all messages that another one of the session sends, one after another, has
/// the titles of the other afterwards, each with the project of its pane, and is drawn again. This
/// holds of an instance that knows the same tabs and panes and no title, and where the titles of
/// the other stand with their panes and no tab is listed without one.
pub proof fn law_broadcast_gives_all_titles(
    sender: StateView,
    receiver: PluginView,
    session: Seq<char>,
)
    requires
        sender.session == Some(session),
        receiver.state.session is None || receiver.state.session == Some(session),
        receiver.state.tabs == sender.tabs,
        receiver.state.panes == sender.panes,
        receiver.state.overrides == Map::<usize, Map<u32, Seq<char>>>::empty(),
        receiver.state.fallbacks == Map::<usize, Map<u32, Seq<char>>>::empty(),
        titles::compact(sender.overrides),
        all_say_something(sender.overrides),
        sender.holds_in_place(sender.overrides),
    ensures
        ({
            let (after, asked) = receiver.told(sender.broadcast());
            &&& after.state.overrides == sender.overrides
            &&& forall|q: usize, id: u32| #[trigger]
                tab_name::text_of(after.state.fallbacks, q, id) == (if tab_name::text_of(
                    sender.overrides,
                    q,
                    id,
                ) is Some {
                    sent_project(sender, id)
                } else {
                    None
                })
            &&& asked.render == (sender.broadcast().len() > 0)
            &&& asked.render == !sender.overrides.dom().is_empty()
        }),
{
    let places = ordered::listing(titles::places(sender.overrides));
    ordered::lemma_listed(titles::places(sender.overrides));
    lemma_told(sender, receiver, session, places, places.len() as int);
    assert(places.take(places.len() as int) =~= places);
    let after = receiver.told(sender.broadcast()).0;
    assert forall|q: usize, id: u32| places.contains((q, id)) <==> #[trigger] tab_name::text_of(
        sender.overrides,
        q,
        id,
    ) is Some by {
        assert(titles::places(sender.overrides).contains((q, id)) <==> places.contains((q, id)));
    }
    assert forall|q: usize, id: u32| #[trigger]
        tab_name::text_of(after.state.overrides, q, id) == tab_name::text_of(
            sender.overrides,
            q,
            id,
        ) by {
        assert(places.contains((q, id)) <==> tab_name::text_of(sender.overrides, q, id) is Some);
    }
    assert forall|q: usize, id: u32| #[trigger]
        tab_name::text_of(after.state.fallbacks, q, id) == (if tab_name::text_of(
            sender.overrides,
            q,
            id,
        ) is Some {
            sent_project(sender, id)
        } else {
            None
        }) by {
        assert(places.contains((q, id)) <==> tab_name::text_of(sender.overrides, q, id) is Some);
    }
    titles::lemma_same_texts(after.state.overrides, sender.overrides);
    if places.len() > 0 {
        assert(places.contains(places[0]));
        assert(tab_name::text_of(sender.overrides, places[0].0, places[0].1) is Some);
        assert(sender.overrides.dom().contains(places[0].0));
    } else if !sender.overrides.dom().is_empty() {
        let q = sender.overrides.dom().choose();
        assert(sender.overrides.contains_key(q));
        let id = sender.overrides[q].dom().choose();
        assert(tab_name::text_of(sender.overrides, q, id) is Some);
        assert(places.contains((q, id)));
    }
}

} // verus!

//! What holds of the titles that are moved, given to other instances, saved and restored.

use vstd::prelude::*;

use crate::data::{PaneView, TabView};
use crate::event::ActionView;
use crate::number;
use crate::ordered;
use crate::ordered::Ranked;
use crate::plugin::laws;
use crate::plugin::message_laws;
use crate::plugin::model::{PendingView, PluginView};
use crate::plugin::pending;
use crate::plugin::persistence;
use crate::plugin::saved;
use crate::search;
use crate::state::{StateView, UpdateEventMask};
use crate::tab_name;
use crate::titles;
use crate::titles::Texts;

verus! {

/// Whether `places` are the places at which there is a text, in the order of the tabs, and of the
/// panes within each.
pub open spec fn in_order(places: Seq<(usize, u32)>, texts: Texts) -> bool {
    &&& forall|q: usize, id: u32| #[trigger]
        places.contains((q, id)) <==> tab_name::text_of(texts, q, id) is Some
    &&& forall|i: int, j: int|
        0 <= i < j < places.len() ==> {
            ||| (#[trigger] places[i]).0 < (#[trigger] places[j]).0
            ||| places[i].0 == places[j].0 && places[i].1 < places[j].1
        }
}

proof fn lemma_in_order(places: Seq<(usize, u32)>, texts: Texts)
    requires
        in_order(places, texts),
    ensures
        ordered::listing(titles::places(texts)) == places,
{
    let dom = titles::places(texts);
    assert forall|k: (usize, u32)| #[trigger] dom.contains(k) <==> places.contains(k) by {
        assert(places.contains((k.0, k.1)) <==> tab_name::text_of(texts, k.0, k.1) is Some);
    }
    assert forall|i: int, j: int| 0 <= i < j < places.len() implies (#[trigger] places[i]).rank()
        < (#[trigger] places[j]).rank() by {}
    ordered::lemma_listing(places, dom);
}

/// The titles go out in the order of the tabs and of the panes within each, one message for every
/// title and no other. Without the name of the session none goes out. What is saved of them is in
/// the same order, each with its pane and the project of the pane.
pub proof fn law_order_of_titles(s: StateView, session: Seq<char>, places: Seq<(usize, u32)>)
    requires
        in_order(places, s.overrides),
    ensures
        s.session is None ==> s.broadcast().len() == 0,
        s.session == Some(session) ==> s.broadcast() == Seq::new(
            places.len(),
            |k: int| ActionView::Send(s.message_at(session, places[k])),
        ),
        s.entries() == Seq::new(
            places.len(),
            |k: int|
                PendingView {
                    pane_id: places[k].1,
                    title: tab_name::text_of(s.overrides, places[k].0, places[k].1)->0,
                    project: titles::first_text(s.fallbacks, places[k].1),
                },
        ),
{
    lemma_in_order(places, s.overrides);
    if s.session == Some(session) {
        assert(s.broadcast() =~= Seq::new(
            places.len(),
            |k: int| ActionView::Send(s.message_at(session, places[k])),
        ));
    }
    assert forall|k: int| 0 <= k < places.len() implies tab_name::text_of(
        s.overrides,
        (#[trigger] places[k]).0,
        places[k].1,
    ) is Some by {
        assert(places.contains((places[k].0, places[k].1)));
    }
    assert(s.entries() =~= Seq::new(
        places.len(),
        |k: int|
            PendingView {
                pane_id: places[k].1,
                title: tab_name::text_of(s.overrides, places[k].0, places[k].1)->0,
                project: titles::first_text(s.fallbacks, places[k].1),
            },
    ));
}

/// Such an order of the titles always exists.
pub proof fn law_titles_can_be_ordered(texts: Texts) -> (places: Seq<(usize, u32)>)
    ensures
        in_order(places, texts),
{
    let dom = titles::places(texts);
    ordered::lemma_listed(dom);
    let places = ordered::listing(dom);
    assert forall|q: usize, id: u32| #[trigger] places.contains((q, id)) <==> tab_name::text_of(
        texts,
        q,
        id,
    ) is Some by {
        assert(dom.contains((q, id)) <==> places.contains((q, id)));
    }
    assert forall|i: int, j: int| 0 <= i < j < places.len() implies ((#[trigger] places[i]).0 < (
    #[trigger] places[j]).0 || (places[i].0 == places[j].0 && places[i].1 < places[j].1)) by {
        assert(places[i].rank() < places[j].rank());
    }
    places
}

/// The first text of a pane is the one at the least position that has one, and the last text the one
/// at the greatest. Texts that move to the tab of their pane leave the last one there.
pub proof fn law_first_and_last_texts(
    texts: Texts,
    tabs: Seq<TabView>,
    panes: Map<usize, Seq<PaneView>>,
    id: u32,
    first: usize,
    last: usize,
)
    requires
        tab_name::text_of(texts, first, id) is Some,
        tab_name::text_of(texts, last, id) is Some,
        forall|q: usize| #[trigger]
            tab_name::text_of(texts, q, id) is Some ==> first <= q <= last,
    ensures
        titles::first_text(texts, id) == tab_name::text_of(texts, first, id),
        titles::last_text(texts, id) == tab_name::text_of(texts, last, id),
        forall|q: usize| #[trigger]
            tab_name::text_of(titles::moved(texts, tabs, panes), q, id) == (if titles::located(
                tabs,
                panes,
                id,
            ) == Some(q) {
                tab_name::text_of(texts, last, id)
            } else {
                None
            }),
{
    reveal(titles::first_position);
    reveal(titles::last_position);
    let a = titles::first_position(texts, id);
    let b = titles::last_position(texts, id);
    assert(tab_name::text_of(texts, a, id) is Some && a <= first);
    assert(tab_name::text_of(texts, b, id) is Some && last <= b);
    titles::lemma_moved(texts, tabs, panes);
}

/// The file that the titles of a session are saved in, and what stands in it for one title and for
/// several: before each of the number of the pane, the title and the project stand its length and a
/// colon, and before a project that there is, an equals sign.
pub proof fn law_saved_form(
    session: Seq<char>,
    id: u32,
    title: Seq<char>,
    project: Seq<char>,
    first: Seq<PendingView>,
    second: Seq<PendingView>,
)
    ensures
        saved::path_of(session) == "/tmp/zjstatus-"@ + session + ".state"@,
        ({
            let number = number::numeral(id as nat);
            let head = number::numeral(number.len()) + seq![':'] + number + number::numeral(
                title.len(),
            ) + seq![':'] + title;
            &&& saved::written(seq![PendingView { pane_id: id, title, project: None }]) == head
                + seq!['0', ':']
            &&& saved::written(seq![PendingView { pane_id: id, title, project: Some(project) }])
                == head + number::numeral((project.len() + 1) as nat) + seq![':', '='] + project
        }),
        saved::written(first + second) == saved::written(first) + saved::written(second),
    decreases first.len(),
{
    let number = number::numeral(id as nat);
    let head = number::numeral(number.len()) + seq![':'] + number + number::numeral(title.len())
        + seq![':'] + title;
    let none = PendingView { pane_id: id, title, project: None };
    let some = PendingView { pane_id: id, title, project: Some(project) };
    assert(number::numeral(0) =~= seq!['0']) by {
        reveal_with_fuel(number::numeral, 2);
    }
    reveal_with_fuel(saved::written, 2);
    assert(saved::written(seq![none]) =~= head + seq!['0', ':']);
    assert((seq!['='] + project).len() == project.len() + 1);
    assert(saved::written(seq![some]) =~= head + number::numeral((project.len() + 1) as nat) + seq![
        ':',
        '=',
    ] + project);
    if first.len() == 0 {
        assert(first + second =~= second);
        assert(saved::written(first) + saved::written(second) =~= saved::written(second));
    } else {
        law_saved_form(session, id, title, project, first.drop_first(), second);
        assert((first + second).drop_first() =~= first.drop_first() + second);
        assert(saved::written(first + second) =~= saved::written(first) + saved::written(second));
    }
}

/// A field is what follows the first colon, as long as the number before the colon says. There is no
/// field without a colon, without such a number, or with less text than the number says.
pub proof fn law_reading_fields(
    before: Seq<char>,
    count: Seq<char>,
    body: Seq<char>,
    behind: Seq<char>,
    n: nat,
)
    requires
        forall|i: int| 0 <= i < count.len() ==> #[trigger] count[i] != ':',
    ensures
        ({
            let at = before.len() as int;
            let t = before + count + seq![':'] + body + behind;
            &&& number::parsed(count, usize::MAX as nat) == Some(body.len()) ==> saved::field_at(
                t,
                at,
            ) == Some((body, at + count.len() + 1 + body.len()))
            &&& number::parsed(count, usize::MAX as nat) == Some(n) && n > body.len() + behind.len()
                ==> saved::field_at(t, at) is None
            &&& number::parsed(count, usize::MAX as nat) is None ==> saved::field_at(t, at) is None
            &&& saved::field_at(before + count, at) is None
        }),
{
    let at = before.len() as int;
    let t = before + count + seq![':'] + body + behind;
    let colon = at + count.len();
    assert(t[colon] == ':');
    search::lemma_first_at(t, saved::is_colon(), at);
    assert forall|j: int| at <= j < colon implies !saved::is_colon()(#[trigger] t[j]) by {
        assert(t[j] == count[j - at]);
    }
    match search::first_at(t, saved::is_colon(), at) {
        Some(i) => {
            if i < colon {
                assert(!saved::is_colon()(t[i]));
            }
            if i > colon {
                assert(!saved::is_colon()(t[colon]));
            }
        },
        None => {
            assert(!saved::is_colon()(t[colon]));
        },
    }
    assert(t.subrange(at, colon) =~= count);
    assert(t.subrange(colon + 1, colon + 1 + body.len()) =~= body);
    let u = before + count;
    search::lemma_first_at(u, saved::is_colon(), at);
    if let Some(i) = search::first_at(u, saved::is_colon(), at) {
        assert(u[i] == count[i - at]);
    }
}

/// A title is read from three fields, one behind the other: the number of the pane, the title, and
/// the project, which there is where the field begins with an equals sign and is not where the field
/// is empty. Anything else is no title.
pub proof fn law_reading_titles(
    t: Seq<char>,
    from: int,
    id: Seq<char>,
    a: int,
    title: Seq<char>,
    b: int,
    project: Seq<char>,
    c: int,
    n: u32,
)
    ensures
        saved::field_at(t, from) is None ==> saved::record_at(t, from) is None,
        saved::field_at(t, from) == Some((id, a)) ==> {
            &&& saved::field_at(t, a) is None ==> saved::record_at(t, from) is None
            &&& saved::field_at(t, a) == Some((title, b)) ==> {
                &&& saved::field_at(t, b) is None ==> saved::record_at(t, from) is None
                &&& saved::field_at(t, b) == Some((project, c)) ==> {
                    let number = number::parsed(id, u32::MAX as nat);
                    &&& number is None ==> saved::record_at(t, from) is None
                    &&& project.len() > 0 && project[0] != '=' ==> saved::record_at(t, from) is None
                    &&& number == Some(n as nat) && project.len() == 0 ==> saved::record_at(t, from)
                        == Some((PendingView { pane_id: n, title, project: None }, c))
                    &&& number == Some(n as nat) && project.len() > 0 && project[0] == '='
                        ==> saved::record_at(t, from) == Some(
                        (PendingView { pane_id: n, title, project: Some(project.skip(1)) }, c),
                    )
                }
            }
        },
{
}

/// Titles are read one behind the other up to the end. With anything in it that is no title, a text
/// is refused.
pub proof fn law_reading_to_the_end(t: Seq<char>, from: int, e: PendingView, next: int)
    ensures
        saved::read(t) == saved::read_from(t, 0),
        from >= t.len() ==> saved::read_from(t, from) == Some(Seq::<PendingView>::empty()),
        from < t.len() && saved::record_at(t, from) is None ==> saved::read_from(t, from) is None,
        from < t.len() && saved::record_at(t, from) == Some((e, next)) && next > from ==> {
            &&& saved::read_from(t, next) is None ==> saved::read_from(t, from) is None
            &&& saved::read_from(t, next) is Some ==> saved::read_from(t, from) == Some(
                seq![e] + saved::read_from(t, next)->0,
            )
        },
{
}

/// What is saved: the titles that stand, in order; those that are astray, unless a title that says
/// something waits for the same pane; and those that wait and say something.
pub proof fn law_what_is_saved(p: PluginView)
    ensures
        ({
            let waiting = p.pending.filter(|e: PendingView| e.title.len() > 0);
            let astray = p.strays.filter(
                |e: PendingView|
                    !exists|i: int|
                        0 <= i < waiting.len() && (#[trigger] waiting[i]).pane_id == e.pane_id,
            );
            p.to_save() == p.state.entries() + astray + waiting
        }),
{
    assert(persistence::says_something() =~= (|e: PendingView| e.title.len() > 0));
    let waiting = p.pending.filter(|e: PendingView| e.title.len() > 0);
    assert(persistence::missing_in(waiting) =~= (|e: PendingView|
        !exists|i: int| 0 <= i < waiting.len() && (#[trigger] waiting[i]).pane_id == e.pane_id));
}

/// What is joined to the titles that wait: the first one of every pane of which nothing is known.
proof fn lemma_joined(
    overrides: Texts,
    strays: Seq<PendingView>,
    waiting: Seq<PendingView>,
    entries: Seq<PendingView>,
)
    ensures
        ({
            let all = persistence::joined(overrides, strays, waiting, entries);
            &&& forall|e: PendingView| waiting.contains(e) ==> #[trigger] all.contains(e)
            &&& forall|k: int|
                0 <= k < all.len() ==> waiting.contains(#[trigger] all[k]) || (entries.contains(
                    all[k],
                ) && !titles::has_text(overrides, all[k].pane_id) && !pending::waits(
                    strays,
                    all[k].pane_id,
                ))
            &&& forall|i: int|
                0 <= i < entries.len() && !titles::has_text(
                    overrides,
                    (#[trigger] entries[i]).pane_id,
                ) && !pending::waits(strays, entries[i].pane_id) && !pending::waits(
                    waiting,
                    entries[i].pane_id,
                ) && (forall|j: int|
                    0 <= j < i ==> (#[trigger] entries[j]).pane_id != entries[i].pane_id)
                    ==> all.contains(entries[i])
        }),
    decreases entries.len(),
{
    let all = persistence::joined(overrides, strays, waiting, entries);
    if entries.len() > 0 {
        let front = entries.drop_last();
        let sofar = persistence::joined(overrides, strays, waiting, front);
        lemma_joined(overrides, strays, waiting, front);
        let last = entries.last();
        assert(entries[entries.len() - 1] == last);
        assert forall|e: PendingView| sofar.contains(e) implies #[trigger] all.contains(e) by {
            let k = sofar.index_of(e);
            assert(all[k] == e);
        }
        assert forall|k: int| 0 <= k < all.len() implies waiting.contains(#[trigger] all[k]) || (
        entries.contains(all[k]) && !titles::has_text(overrides, all[k].pane_id) && !pending::waits(
            strays,
            all[k].pane_id,
        )) by {
            if k < sofar.len() {
                assert(all[k] == sofar[k]);
                if front.contains(sofar[k]) {
                    let i = front.index_of(sofar[k]);
                    assert(entries[i] == sofar[k]);
                }
            }
        }
        assert forall|i: int|
            0 <= i < entries.len() && !titles::has_text(overrides, (#[trigger] entries[i]).pane_id)
                && !pending::waits(strays, entries[i].pane_id) && !pending::waits(
                waiting,
                entries[i].pane_id,
            ) && (forall|j: int|
                0 <= j < i ==> (#[trigger] entries[j]).pane_id != entries[i].pane_id) implies all.contains(
        entries[i]) by {
            if i < front.len() {
                assert(front[i] == entries[i]);
                assert forall|j: int| 0 <= j < i implies (#[trigger] front[j]).pane_id
                    != front[i].pane_id by {
                    assert(entries[j].pane_id != entries[i].pane_id);
                }
                assert(sofar.contains(front[i]));
            } else {
                if pending::waits(sofar, last.pane_id) {
                    let k = choose|k: int|
                        0 <= k < sofar.len() && (#[trigger] sofar[k]).pane_id == last.pane_id;
                    if waiting.contains(sofar[k]) {
                        let m = waiting.index_of(sofar[k]);
                        assert(waiting[m].pane_id == last.pane_id);
                    } else {
                        let m = front.index_of(sofar[k]);
                        assert(entries[m] == front[m]);
                    }
                }
                assert(all.last() == last);
                assert(all[all.len() - 1] == last);
            }
        }
    }
}

/// A title of a pane waits exactly where one in the list is of that pane; and a pane has a text
/// exactly where one is stored for its number at some position.
pub proof fn law_whose_titles_there_are(waiting: Seq<PendingView>, texts: Texts, id: u32)
    ensures
        pending::waits(waiting, id) <==> exists|i: int|
            0 <= i < waiting.len() && (#[trigger] waiting[i]).pane_id == id,
        titles::has_text(texts, id) <==> exists|q: usize| #[trigger]
            texts.contains_key(q) && texts[q].contains_key(id),
{
    if titles::has_text(texts, id) {
        let q = choose|q: usize| #[trigger] tab_name::text_of(texts, q, id) is Some;
        assert(texts.contains_key(q) && texts[q].contains_key(id));
    }
    if exists|q: usize| #[trigger] texts.contains_key(q) && texts[q].contains_key(id) {
        let q = choose|q: usize| #[trigger] texts.contains_key(q) && texts[q].contains_key(id);
        assert(tab_name::text_of(texts, q, id) is Some);
    }
}

/// What was saved gives a title to every pane that has none, and to no other. The title of a pane
/// that has one stays, whether it stands, is astray or waits; and of two saved titles of one pane,
/// the first one counts. A title that was taken in, or that waited before, stands at the tab of its
/// pane where that is known, and waits where it is not. Everything else stays but that the bar is
/// drawn again.
pub proof fn law_restored_titles(
    p: PluginView,
    entries: Seq<PendingView>,
    id: u32,
    e: PendingView,
    i: int,
    at: usize,
)
    requires
        laws::one_each(p.pending),
    ensures
        ({
            let (after, asked) = p.restored(entries);
            let known = titles::has_text(p.state.overrides, id) || pending::waits(p.strays, id);
            let is_new = 0 <= i < entries.len() && entries[i] == e && !titles::has_text(
                p.state.overrides,
                e.pane_id,
            ) && !pending::waits(p.strays, e.pane_id) && !pending::waits(p.pending, e.pane_id) && (
            forall|j: int| 0 <= j < i ==> (#[trigger] entries[j]).pane_id != e.pane_id);
            let place = titles::located(p.state.tabs, p.state.panes, e.pane_id);
            &&& known && !pending::waits(p.pending, id) ==> (forall|q: usize| #[trigger]
                tab_name::text_of(after.state.overrides, q, id) == tab_name::text_of(
                    p.state.overrides,
                    q,
                    id,
                )) && (forall|q: usize| #[trigger]
                tab_name::text_of(after.state.fallbacks, q, id) == tab_name::text_of(
                    p.state.fallbacks,
                    q,
                    id,
                ))
            &&& (is_new || p.pending.contains(e)) && place == Some(at) && e.title.len() > 0 ==> {
                &&& tab_name::text_of(after.state.overrides, at, e.pane_id) == Some(e.title)
                &&& e.project is Some ==> tab_name::text_of(after.state.fallbacks, at, e.pane_id)
                    == e.project
            }
            &&& (is_new || p.pending.contains(e)) && place is None ==> after.pending.contains(e)
            &&& after.pending.contains(e) ==> place is None && (p.pending.contains(e)
                || entries.contains(e))
            &&& laws::one_each(after.pending)
            &&& asked.render
            &&& after.state.cache_mask == Some(UpdateEventMask::Tab)
            &&& after.timer_active == (p.timer_active || message_laws::is_moving(after))
            &&& message_laws::timer_asked(
                PluginView { timer_active: p.timer_active, ..after },
                asked.actions,
            )
            &&& after == (PluginView {
                timer_active: after.timer_active,
                pending: after.pending,
                state: StateView {
                    overrides: after.state.overrides,
                    fallbacks: after.state.fallbacks,
                    cache_mask: after.state.cache_mask,
                    ..p.state
                },
                ..p
            })
        }),
{
    let all = persistence::joined(p.state.overrides, p.strays, p.pending, entries);
    let q = PluginView { pending: all, ..p };
    lemma_joined(p.state.overrides, p.strays, p.pending, entries);
    persistence::lemma_joined_one_each(p.state.overrides, p.strays, p.pending, entries);
    pending::lemma_settled(p.state, all);
    laws::lemma_settled(p.state, all);
    let unplaced = pending::unplaced(p.state.tabs, p.state.panes);
    laws::lemma_filter(all, unplaced);
    let known = titles::has_text(p.state.overrides, id) || pending::waits(p.strays, id);
    if known && !pending::waits(p.pending, id) {
        if pending::waits(all, id) {
            let k = choose|k: int| 0 <= k < all.len() && (#[trigger] all[k]).pane_id == id;
            assert(p.pending.contains(all[k]));
            let m = p.pending.index_of(all[k]);
            assert(p.pending[m].pane_id == id);
        }
    }
    let place = titles::located(p.state.tabs, p.state.panes, e.pane_id);
    if all.contains(e) && place == Some(at) {
        laws::law_waiting_title_is_given(q, e, at);
    }
    if all.filter(unplaced).contains(e) {
        let k = all.index_of(e);
        assert(all[k] == e);
    }
}

} // verus!

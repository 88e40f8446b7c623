//! Texts that panes hold for their tabs, by the position of the tab and the number of the pane.

use std::collections::BTreeMap;
use vstd::prelude::*;

use crate::data;
use crate::data::{PaneManifest, PaneView, TabInfo, TabView};
use crate::ordered;
use crate::ordered::Ranked;
use crate::search;
use crate::state;
use crate::state::TabTexts;
use crate::tab_name;
use crate::text;

verus! {

/// Texts by position and pane.
pub type Texts = Map<usize, Map<u32, Seq<char>>>;

/// No tab is listed without a text.
pub open spec fn compact(texts: Texts) -> bool {
    forall|p: usize| #[trigger] texts.contains_key(p) ==> !texts[p].dom().is_empty()
}

/// `texts` with `s` as the text of a pane of the tab at `position`.
pub open spec fn put(texts: Texts, position: usize, id: u32, s: Seq<char>) -> Texts {
    texts.insert(
        position,
        (if texts.contains_key(position) {
            texts[position]
        } else {
            Map::empty()
        }).insert(id, s),
    )
}

/// `texts` without any text of the pane `id`, and without the tabs that hold no other.
pub open spec fn without(texts: Texts, id: u32) -> Texts {
    Map::new(
        |p: usize| texts.contains_key(p) && !texts[p].remove(id).dom().is_empty(),
        |p: usize| texts[p].remove(id),
    )
}

/// `texts` without the text of the pane `id` at `position`, and without that tab if it holds no
/// other.
pub open spec fn without_at(texts: Texts, position: usize, id: u32) -> Texts {
    if texts.contains_key(position) {
        if texts[position].remove(id).dom().is_empty() {
            texts.remove(position)
        } else {
            texts.insert(position, texts[position].remove(id))
        }
    } else {
        texts
    }
}

/// The places at which there is a text.
pub open spec fn places(texts: Texts) -> Set<(usize, u32)> {
    Set::new(|k: (usize, u32)| tab_name::text_of(texts, k.0, k.1) is Some)
}

/// A tab that holds the terminal `id`.
pub open spec fn holds_terminal(panes: Map<usize, Seq<PaneView>>, id: u32) -> spec_fn(
    TabView,
) -> bool {
    |tab: TabView|
        panes.contains_key(tab.position) && search::first(
            panes[tab.position],
            tab_name::terminal(id),
        ) is Some
}

/// Whether a list of panes holds the terminal `id`, be it of a known tab or not.
pub open spec fn listed(panes: Map<usize, Seq<PaneView>>, id: u32) -> bool {
    exists|p: usize| #[trigger]
        panes.contains_key(p) && search::first(panes[p], tab_name::terminal(id)) is Some
}

/// The position of the first tab that holds the terminal `id`.
pub open spec fn located(
    tabs: Seq<TabView>,
    panes: Map<usize, Seq<PaneView>>,
    id: u32,
) -> Option<usize> {
    match search::first(tabs, holds_terminal(panes, id)) {
        Some(tab) => Some(tab.position),
        None => None,
    }
}

/// Whether the pane `id` has a text at some position.
pub open spec fn has_text(texts: Texts, id: u32) -> bool {
    exists|p: usize| #[trigger] tab_name::text_of(texts, p, id) is Some
}

/// The last position at which the pane `id` has a text.
#[verifier::opaque]
pub open spec fn last_position(texts: Texts, id: u32) -> usize {
    choose|p: usize|
        #![trigger tab_name::text_of(texts, p, id)]
        {
            &&& tab_name::text_of(texts, p, id) is Some
            &&& forall|q: usize| #[trigger] tab_name::text_of(texts, q, id) is Some ==> q <= p
        }
}

/// The first position at which the pane `id` has a text.
#[verifier::opaque]
pub open spec fn first_position(texts: Texts, id: u32) -> usize {
    choose|p: usize|
        #![trigger tab_name::text_of(texts, p, id)]
        {
            &&& tab_name::text_of(texts, p, id) is Some
            &&& forall|q: usize| #[trigger] tab_name::text_of(texts, q, id) is Some ==> p <= q
        }
}

/// The text of the pane `id` at the first position that holds one.
pub open spec fn first_text(texts: Texts, id: u32) -> Option<Seq<char>> {
    if has_text(texts, id) {
        tab_name::text_of(texts, first_position(texts, id), id)
    } else {
        None
    }
}

/// The text of the pane `id` at the last position that holds one.
pub open spec fn last_text(texts: Texts, id: u32) -> Option<Seq<char>> {
    if has_text(texts, id) {
        tab_name::text_of(texts, last_position(texts, id), id)
    } else {
        None
    }
}

/// Whether the text of the pane `id` belongs to `position` once every text is moved to the tab
/// that holds its pane.
pub open spec fn lands(
    texts: Texts,
    tabs: Seq<TabView>,
    panes: Map<usize, Seq<PaneView>>,
    position: usize,
    id: u32,
) -> bool {
    has_text(texts, id) && located(tabs, panes, id) == Some(position)
}

/// `texts` with every text moved to the tab that holds its pane. A text whose pane is gone is
/// dropped; where a pane had texts at several positions, that of the last position stays.
pub open spec fn moved(
    texts: Texts,
    tabs: Seq<TabView>,
    panes: Map<usize, Seq<PaneView>>,
) -> Texts {
    Map::new(
        |p: usize| exists|id: u32| #[trigger] lands(texts, tabs, panes, p, id),
        |p: usize|
            Map::new(
                |id: u32| lands(texts, tabs, panes, p, id),
                |id: u32| tab_name::text_of(texts, last_position(texts, id), id)->0,
            ),
    )
}

/// Whether a text holds a spinner.
pub open spec fn spins(texts: Texts) -> bool {
    exists|p: usize, id: u32|
        match #[trigger] tab_name::text_of(texts, p, id) {
            Some(t) => text::has(t, "{spin}"@),
            None => false,
        }
}

spec fn ascending(keys: Seq<(usize, u32)>) -> bool {
    forall|i: int, j: int|
        0 <= i < j < keys.len() ==> (#[trigger] keys[i]).rank() < (#[trigger] keys[j]).rank()
}

proof fn lemma_push<T>(s: Seq<T>, last: T)
    ensures
        forall|x: T| #[trigger] s.push(last).contains(x) <==> (s.contains(x) || x == last),
{
    assert forall|x: T| #[trigger] s.push(last).contains(x) <==> (s.contains(x) || x == last) by {
        if s.contains(x) {
            assert(s.push(last)[s.index_of(x)] == x);
        }
        if x == last {
            assert(s.push(last)[s.len() as int] == x);
        }
    }
}

/// Two collections without empty tabs that agree on every text are the same.
pub proof fn lemma_same_texts(a: Texts, b: Texts)
    requires
        compact(a),
        compact(b),
        forall|p: usize, id: u32| #[trigger] tab_name::text_of(a, p, id) == tab_name::text_of(b, p, id),
    ensures
        a == b,
{
    assert forall|p: usize| #[trigger] a.contains_key(p) <==> b.contains_key(p) by {
        if a.contains_key(p) {
            let id = a[p].dom().choose();
            assert(tab_name::text_of(a, p, id) is Some);
            assert(tab_name::text_of(b, p, id) is Some);
        }
        if b.contains_key(p) {
            let id = b[p].dom().choose();
            assert(tab_name::text_of(b, p, id) is Some);
            assert(tab_name::text_of(a, p, id) is Some);
        }
    }
    assert forall|p: usize| #[trigger] a.contains_key(p) implies a[p] == b[p] by {
        assert forall|id: u32| #[trigger] a[p].contains_key(id) <==> b[p].contains_key(id) by {
            assert(tab_name::text_of(a, p, id) == tab_name::text_of(b, p, id));
        }
        assert forall|id: u32| #[trigger] a[p].contains_key(id) implies a[p][id] == b[p][id] by {
            assert(tab_name::text_of(a, p, id) == tab_name::text_of(b, p, id));
        }
        assert(a[p] =~= b[p]);
    }
    assert(a =~= b);
}

/// Gives a pane of the tab at `position` a text.
pub fn put_text(texts: &mut TabTexts, position: usize, id: u32, s: String)
    ensures
        state::tab_texts(final(texts)@) == put(state::tab_texts(old(texts)@), position, id, s@),
{
    let mut inner: BTreeMap<u32, String> = match texts.remove(&position) {
        Some(m) => m,
        None => BTreeMap::new(),
    };
    let ghost before = state::texts(inner@);
    inner.insert(id, s);
    assert(state::texts(inner@) =~= before.insert(id, s@));
    proof {
        if !old(texts)@.contains_key(position) {
            assert(before =~= Map::empty());
        }
    }
    texts.insert(position, inner);
    assert(state::tab_texts(texts@) =~= put(
        state::tab_texts(old(texts)@),
        position,
        id,
        s@,
    ));
}

/// Takes every text of the pane `id` away.
pub fn remove_pane(texts: &mut TabTexts, id: u32)
    ensures
        state::tab_texts(final(texts)@) == without(state::tab_texts(old(texts)@), id),
{
    let keys = ordered::positions(&*texts);
    let ghost start = texts@;
    let ghost target = without(state::tab_texts(start), id);
    let mut kept: TabTexts = BTreeMap::new();
    let mut i: usize = 0;
    while i < keys.len()
        invariant
            i <= keys@.len(),
            ordered::lists(keys@, start.dom()),
            target == without(state::tab_texts(start), id),
            forall|p: usize| #[trigger]
                texts@.contains_key(p) <==> (start.contains_key(p) && !keys@.take(
                    i as int,
                ).contains(p)),
            forall|p: usize| #[trigger] texts@.contains_key(p) ==> texts@[p] == start[p],
            forall|p: usize| #[trigger]
                state::tab_texts(kept@).contains_key(p) <==> (target.contains_key(p)
                    && keys@.take(i as int).contains(p)),
            forall|p: usize| #[trigger]
                state::tab_texts(kept@).contains_key(p) ==> state::tab_texts(kept@)[p]
                    == target[p],
        decreases keys@.len() - i,
    {
        let k: usize = keys[i];
        let ghost done = keys@.take(i as int);
        assert(keys@.take(i + 1) =~= done.push(k));
        proof {
            assert(start.dom().contains(k));
            if done.contains(k) {
                let j = done.index_of(k);
                assert(keys@[j] == keys@[i as int]);
            }
            lemma_push(done, k);
        }
        match texts.remove(&k) {
            Some(inner) => {
                let mut inner = inner;
                let ghost before = state::texts(inner@);
                inner.remove(&id);
                assert(state::texts(inner@) =~= before.remove(id));
                assert(state::texts(inner@).dom() =~= inner@.dom());
                assert(before == state::tab_texts(start)[k]);
                if !inner.is_empty() {
                    let ghost old_kept = kept@;
                    kept.insert(k, inner);
                    assert(state::tab_texts(kept@) =~= state::tab_texts(old_kept).insert(
                        k,
                        before.remove(id),
                    ));
                    assert(target.contains_key(k)) by {
                        let some = inner@.dom().choose();
                        assert(before.remove(id).dom().contains(some));
                    }
                } else {
                    assert(before.remove(id).dom() =~= Set::empty());
                    assert(!target.contains_key(k));
                }
            },
            None => {},
        }
        i = i + 1;
    }
    assert(keys@.take(i as int) =~= keys@);
    proof {
        assert forall|p: usize| #[trigger] target.contains_key(p) implies keys@.contains(p) by {
            assert(start.dom().contains(p));
        }
        assert(state::tab_texts(kept@) =~= target);
    }
    *texts = kept;
}

/// Takes the text of the pane `id` at `position` away.
pub fn remove_text(texts: &mut TabTexts, position: usize, id: u32)
    ensures
        state::tab_texts(final(texts)@) == without_at(
            state::tab_texts(old(texts)@),
            position,
            id,
        ),
{
    match texts.remove(&position) {
        Some(inner) => {
            let mut inner = inner;
            let ghost before = state::texts(inner@);
            inner.remove(&id);
            assert(state::texts(inner@) =~= before.remove(id));
            assert(state::texts(inner@).dom() =~= inner@.dom());
            if !inner.is_empty() {
                assert(!before.remove(id).dom().is_empty()) by {
                    let some = inner@.dom().choose();
                    assert(before.remove(id).dom().contains(some));
                }
                texts.insert(position, inner);
            } else {
                assert(before.remove(id).dom() =~= Set::empty());
            }
        },
        None => {},
    }
    assert(state::tab_texts(texts@) =~= without_at(
        state::tab_texts(old(texts)@),
        position,
        id,
    ));
}

/// The places at which there is a text, in ascending order.
pub fn listed_places(texts: &TabTexts) -> (r: Vec<(usize, u32)>)
    ensures
        ordered::lists(r@, places(state::tab_texts(texts@))),
        r@ == ordered::listing(places(state::tab_texts(texts@))),
{
    let ghost all = state::tab_texts(texts@);
    let mut r: Vec<(usize, u32)> = Vec::new();
    let keys = ordered::positions(texts);
    let mut i: usize = 0;
    while i < keys.len()
        invariant
            i <= keys@.len(),
            all == state::tab_texts(texts@),
            ordered::lists(keys@, texts@.dom()),
            ascending(r@),
            forall|k: (usize, u32)| #[trigger]
                r@.contains(k) <==> (places(all).contains(k) && keys@.take(i as int).contains(
                    k.0,
                )),
        decreases keys@.len() - i,
    {
        let position: usize = keys[i];
        let ghost done = keys@.take(i as int);
        assert(texts@.dom().contains(position)) by {
            assert(keys@.contains(position));
        }
        proof {
            assert(keys@.take(i + 1) =~= done.push(position));
            lemma_push(done, position);
            assert forall|k: (usize, u32)| #[trigger] r@.contains(k) implies k.0 < position by {
                let j = done.index_of(k.0);
                assert(keys@[j].rank() < keys@[i as int].rank());
            }
        }
        match texts.get(&position) {
            Some(inner) => {
                let ids = ordered::pane_ids(inner);
                let ghost before = r@;
                let mut j: usize = 0;
                while j < ids.len()
                    invariant
                        j <= ids@.len(),
                        all == state::tab_texts(texts@),
                        texts@.contains_key(position),
                        texts@[position] == *inner,
                        ordered::lists(ids@, inner@.dom()),
                        ascending(r@),
                        forall|k: (usize, u32)| #[trigger] before.contains(k) ==> k.0 < position,
                        forall|k: (usize, u32)| #[trigger]
                            r@.contains(k) <==> (before.contains(k) || (k.0 == position
                                && ids@.take(j as int).contains(k.1))),
                    decreases ids@.len() - j,
                {
                    let id: u32 = ids[j];
                    let ghost seen = ids@.take(j as int);
                    let ghost earlier = r@;
                    proof {
                        assert(ids@.take(j + 1) =~= seen.push(id));
                        lemma_push(seen, id);
                        lemma_push(earlier, (position, id));
                        assert forall|m: int| 0 <= m < earlier.len() implies (
                        #[trigger] earlier[m]).rank() < (position, id).rank() by {
                            let k = earlier[m];
                            assert(r@.contains(k));
                            if !before.contains(k) {
                                let n = seen.index_of(k.1);
                                assert(ids@[n].rank() < ids@[j as int].rank());
                            }
                        }
                    }
                    r.push((position, id));
                    j = j + 1;
                }
                proof {
                    assert(ids@.take(j as int) =~= ids@);
                    assert forall|k: (usize, u32)| #[trigger] r@.contains(k) <==> (places(
                        all,
                    ).contains(k) && done.push(position).contains(k.0)) by {
                        if k.0 == position {
                            assert(inner@.dom().contains(k.1) <==> ids@.contains(k.1));
                            if done.contains(position) {
                                let m = done.index_of(position);
                                assert(keys@[m].rank() < keys@[i as int].rank());
                            }
                        }
                    }
                }
            },
            None => {},
        }
        i = i + 1;
    }
    proof {
        assert(keys@.take(i as int) =~= keys@);
        assert forall|k: (usize, u32)| #[trigger] places(all).contains(k) <==> r@.contains(k) by {
            if places(all).contains(k) {
                assert(texts@.dom().contains(k.0));
            }
        }
        ordered::lemma_listing(r@, places(all));
    }
    r
}

/// The position of the first tab that holds the terminal `id`.
pub fn find_tab_for_pane(tabs: &Vec<TabInfo>, panes: &PaneManifest, id: u32) -> (r: Option<usize>)
    ensures
        r == located(data::tab_views(tabs@), panes@, id),
{
    let ghost all = data::tab_views(tabs@);
    let ghost p = holds_terminal(panes@, id);
    let mut i: usize = 0;
    while i < tabs.len()
        invariant
            i <= tabs@.len(),
            all == data::tab_views(tabs@),
            p == holds_terminal(panes@, id),
            search::first_at(all, p, 0) == search::first_at(all, p, i as int),
        decreases tabs@.len() - i,
    {
        assert(all[i as int] == tabs@[i as int]@);
        if let Some(inner) = panes.of_tab(tabs[i].position) {
            if tab_name::find_terminal(inner, id).is_some() {
                return Some(tabs[i].position);
            }
        }
        i = i + 1;
    }
    None
}

/// Whether a list of panes holds the terminal `id`, be it of a known tab or not.
pub fn is_listed(panes: &PaneManifest, id: u32) -> (r: bool)
    ensures
        r == listed(panes@, id),
{
    let keys = ordered::positions(&panes.panes);
    let mut i: usize = 0;
    while i < keys.len()
        invariant
            i <= keys@.len(),
            ordered::lists(keys@, panes.panes@.dom()),
            forall|j: int|
                0 <= j < i ==> panes@.contains_key(keys@[j]) ==> search::first(
                    panes@[#[trigger] keys@[j]],
                    tab_name::terminal(id),
                ) is None,
        decreases keys@.len() - i,
    {
        if let Some(inner) = panes.of_tab(keys[i]) {
            if tab_name::find_terminal(inner, id).is_some() {
                return true;
            }
        }
        i = i + 1;
    }
    proof {
        assert forall|p: usize| #[trigger] panes@.contains_key(p) implies search::first(
            panes@[p],
            tab_name::terminal(id),
        ) is None by {
            assert(panes.panes@.dom().contains(p));
            let j = keys@.index_of(p);
            assert(keys@[j] == p);
        }
    }
    false
}

/// A terminal at a known tab is in a list of panes.
pub proof fn lemma_located(tabs: Seq<TabView>, panes: Map<usize, Seq<PaneView>>, id: u32)
    ensures
        located(tabs, panes, id) is Some ==> listed(panes, id),
{
    search::lemma_first_at(tabs, holds_terminal(panes, id), 0);
    if let Some(i) = search::first_at(tabs, holds_terminal(panes, id), 0) {
        assert(panes.contains_key(tabs[i].position));
    }
}

/// Whether a text holds a spinner.
pub fn has_spin(texts: &TabTexts) -> (r: bool)
    ensures
        r == spins(state::tab_texts(texts@)),
{
    let ghost all = state::tab_texts(texts@);
    let keys = listed_places(texts);
    let mut i: usize = 0;
    while i < keys.len()
        invariant
            i <= keys@.len(),
            all == state::tab_texts(texts@),
            ordered::lists(keys@, places(all)),
            forall|j: int|
                0 <= j < i ==> match tab_name::text_of(
                    all,
                    (#[trigger] keys@[j]).0,
                    keys@[j].1,
                ) {
                    Some(t) => !text::has(t, "{spin}"@),
                    None => true,
                },
        decreases keys@.len() - i,
    {
        if let Some(t) = tab_name::find_text(texts, keys[i].0, keys[i].1) {
            if text::contains(t.as_str(), "{spin}") {
                return true;
            }
        }
        i = i + 1;
    }
    proof {
        assert forall|p: usize, id: u32|
            match #[trigger] tab_name::text_of(all, p, id) {
                Some(t) => !text::has(t, "{spin}"@),
                None => true,
            } by {
            if tab_name::text_of(all, p, id) is Some {
                assert(places(all).contains((p, id)));
                let j = keys@.index_of((p, id));
                assert(keys@[j] == (p, id));
            }
        }
    }
    false
}

/// The text of the pane `id` at the first position that holds one.
pub fn find_first_text(texts: &TabTexts, id: u32) -> (r: Option<&String>)
    ensures
        match r {
            Some(t) => first_text(state::tab_texts(texts@), id) == Some(t@),
            None => first_text(state::tab_texts(texts@), id) is None,
        },
        r is Some <==> has_text(state::tab_texts(texts@), id),
{
    let ghost all = state::tab_texts(texts@);
    let keys = ordered::positions(texts);
    let mut i: usize = 0;
    while i < keys.len()
        invariant
            i <= keys@.len(),
            all == state::tab_texts(texts@),
            ordered::lists(keys@, texts@.dom()),
            forall|j: int|
                0 <= j < i ==> tab_name::text_of(all, #[trigger] keys@[j], id) is None,
        decreases keys@.len() - i,
    {
        if let Some(t) = tab_name::find_text(texts, keys[i], id) {
            proof {
                let p = keys@[i as int];
                assert(tab_name::text_of(all, p, id) is Some);
                assert forall|q: usize| #[trigger]
                    tab_name::text_of(all, q, id) is Some implies p <= q by {
                    assert(texts@.dom().contains(q));
                    let j = keys@.index_of(q);
                    assert(keys@[j] == q);
                    assert(j >= i);
                    if j > i {
                        assert(keys@[i as int].rank() < keys@[j].rank());
                    }
                }
                reveal(first_position);
                let f = first_position(all, id);
                assert(tab_name::text_of(all, f, id) is Some);
                assert(f <= p && p <= f);
            }
            return Some(t);
        }
        i = i + 1;
    }
    proof {
        assert forall|q: usize| #[trigger] tab_name::text_of(all, q, id) is None by {
            if tab_name::text_of(all, q, id) is Some {
                assert(texts@.dom().contains(q));
                let j = keys@.index_of(q);
                assert(keys@[j] == q);
            }
        }
    }
    None
}

/// The text of the pane `id` at the last position that holds one.
pub fn find_last_text(texts: &TabTexts, id: u32) -> (r: Option<&String>)
    ensures
        match r {
            Some(t) => last_text(state::tab_texts(texts@), id) == Some(t@),
            None => last_text(state::tab_texts(texts@), id) is None,
        },
        r is Some <==> has_text(state::tab_texts(texts@), id),
{
    let ghost all = state::tab_texts(texts@);
    let keys = ordered::positions(texts);
    let mut i: usize = keys.len();
    while i > 0
        invariant
            i <= keys@.len(),
            all == state::tab_texts(texts@),
            ordered::lists(keys@, texts@.dom()),
            forall|j: int|
                i <= j < keys@.len() ==> tab_name::text_of(all, #[trigger] keys@[j], id) is None,
        decreases i,
    {
        i = i - 1;
        if let Some(t) = tab_name::find_text(texts, keys[i], id) {
            proof {
                let p = keys@[i as int];
                assert(tab_name::text_of(all, p, id) is Some);
                assert forall|q: usize| #[trigger]
                    tab_name::text_of(all, q, id) is Some implies q <= p by {
                    assert(texts@.dom().contains(q));
                    let j = keys@.index_of(q);
                    assert(keys@[j] == q);
                    assert(j <= i);
                    if j < i {
                        assert(keys@[j].rank() < keys@[i as int].rank());
                    }
                }
                reveal(last_position);
                let l = last_position(all, id);
                assert(tab_name::text_of(all, l, id) is Some);
                assert(l <= p && p <= l);
            }
            return Some(t);
        }
    }
    proof {
        assert forall|q: usize| #[trigger] tab_name::text_of(all, q, id) is None by {
            if tab_name::text_of(all, q, id) is Some {
                assert(texts@.dom().contains(q));
                let j = keys@.index_of(q);
                assert(keys@[j] == q);
            }
        }
    }
    None
}

/// The position in the last of `keys` that names the pane `id`.
spec fn latest_in(keys: Seq<(usize, u32)>, id: u32) -> Option<usize>
    decreases keys.len(),
{
    if keys.len() == 0 {
        None
    } else if keys.last().1 == id {
        Some(keys.last().0)
    } else {
        latest_in(keys.drop_last(), id)
    }
}

proof fn lemma_latest_in(keys: Seq<(usize, u32)>, id: u32)
    requires
        ascending(keys),
    ensures
        match latest_in(keys, id) {
            Some(p) => {
                &&& keys.contains((p, id))
                &&& forall|q: usize| #[trigger] keys.contains((q, id)) ==> q <= p
            },
            None => forall|q: usize| !#[trigger] keys.contains((q, id)),
        },
    decreases keys.len(),
{
    if keys.len() > 0 {
        let front = keys.drop_last();
        assert(front.push(keys.last()) =~= keys);
        lemma_push(front, keys.last());
        assert(ascending(front)) by {
            assert forall|i: int, j: int| 0 <= i < j < front.len() implies (
            #[trigger] front[i]).rank() < (#[trigger] front[j]).rank() by {
                assert(keys[i].rank() < keys[j].rank());
            }
        }
        lemma_latest_in(front, id);
        if keys.last().1 == id {
            assert forall|q: usize| #[trigger] keys.contains((q, id)) implies q <= keys.last().0 by {
                let j = keys.index_of((q, id));
                if j < keys.len() - 1 {
                    assert(keys[j].rank() < keys[keys.len() - 1].rank());
                }
            }
        }
    }
}

/// Where `keys` are the places of `texts`, the last of them for a pane holds its last text.
proof fn lemma_last_position(texts: Texts, keys: Seq<(usize, u32)>, id: u32)
    requires
        ordered::lists(keys, places(texts)),
    ensures
        latest_in(keys, id) == (if has_text(texts, id) {
            Some(last_position(texts, id))
        } else {
            None
        }),
{
    lemma_latest_in(keys, id);
    assert forall|q: usize| #[trigger] tab_name::text_of(texts, q, id) is Some <==> keys.contains(
        (q, id),
    ) by {
        assert(places(texts).contains((q, id)) <==> keys.contains((q, id)));
    }
    if let Some(p) = latest_in(keys, id) {
        assert(tab_name::text_of(texts, p, id) is Some);
        reveal(last_position);
        let l = last_position(texts, id);
        assert(tab_name::text_of(texts, l, id) is Some);
        assert(l <= p && p <= l);
    }
}

/// There is a last one among the positions at or after `from` that hold a text of the pane `id`.
proof fn lemma_last_from(texts: Texts, id: u32, from: usize) -> (last: usize)
    requires
        tab_name::text_of(texts, from, id) is Some,
    ensures
        tab_name::text_of(texts, last, id) is Some,
        forall|q: usize| #[trigger] tab_name::text_of(texts, q, id) is Some ==> q <= last,
    decreases usize::MAX - from,
{
    if exists|q: usize| #[trigger] tab_name::text_of(texts, q, id) is Some && q > from {
        let q = choose|q: usize| #[trigger] tab_name::text_of(texts, q, id) is Some && q > from;
        lemma_last_from(texts, id, q)
    } else {
        from
    }
}

/// The last position of a pane that has a text holds one.
pub proof fn lemma_last_position_holds(texts: Texts, id: u32)
    requires
        has_text(texts, id),
    ensures
        tab_name::text_of(texts, last_position(texts, id), id) is Some,
{
    let some = choose|p: usize| #[trigger] tab_name::text_of(texts, p, id) is Some;
    let last = lemma_last_from(texts, id, some);
    reveal(last_position);
    assert(tab_name::text_of(texts, last, id) is Some);
}

/// Where the texts of a pane stand at one position at most, the first one is the one there.
pub proof fn lemma_first_text(texts: Texts, id: u32, at: usize)
    requires
        forall|q: usize| #[trigger] tab_name::text_of(texts, q, id) is Some ==> q == at,
    ensures
        first_text(texts, id) == tab_name::text_of(texts, at, id),
{
    if has_text(texts, id) {
        let some = choose|p: usize| #[trigger] tab_name::text_of(texts, p, id) is Some;
        reveal(first_position);
        assert(tab_name::text_of(texts, some, id) is Some);
        assert(tab_name::text_of(texts, first_position(texts, id), id) is Some);
    }
}

/// Putting a text changes nothing but that text.
pub proof fn lemma_put(texts: Texts, position: usize, id: u32, s: Seq<char>)
    ensures
        compact(texts) ==> compact(put(texts, position, id, s)),
        forall|p: usize, i: u32| #[trigger]
            tab_name::text_of(put(texts, position, id, s), p, i) == (if p == position && i == id {
                Some(s)
            } else {
                tab_name::text_of(texts, p, i)
            }),
{
    let after = put(texts, position, id, s);
    if compact(texts) {
        assert forall|p: usize| #[trigger] after.contains_key(p) implies !after[p].dom().is_empty() by {
            if p == position {
                assert(after[p].dom().contains(id));
            } else {
                assert(texts.contains_key(p));
            }
        }
    }
}

/// Taking a text away changes nothing but that text.
pub proof fn lemma_without_at(texts: Texts, position: usize, id: u32)
    ensures
        compact(texts) ==> compact(without_at(texts, position, id)),
        forall|p: usize, i: u32| #[trigger]
            tab_name::text_of(without_at(texts, position, id), p, i) == (if p == position && i
                == id {
                None
            } else {
                tab_name::text_of(texts, p, i)
            }),
{
    let after = without_at(texts, position, id);
    assert forall|p: usize, i: u32| #[trigger] tab_name::text_of(after, p, i) == (if p == position
        && i == id {
        None
    } else {
        tab_name::text_of(texts, p, i)
    }) by {
        if p == position && i != id && tab_name::text_of(texts, p, i) is Some {
            assert(texts[p].remove(id).dom().contains(i));
        }
    }
    if compact(texts) {
        assert forall|p: usize| #[trigger] after.contains_key(p) implies !after[p].dom().is_empty() by {
            assert(texts.contains_key(p));
        }
    }
}

/// What moving the texts to their panes leaves.
pub proof fn lemma_moved(texts: Texts, tabs: Seq<TabView>, panes: Map<usize, Seq<PaneView>>)
    ensures
        compact(moved(texts, tabs, panes)),
        forall|p: usize, id: u32| #[trigger]
            tab_name::text_of(moved(texts, tabs, panes), p, id) == (if lands(
                texts,
                tabs,
                panes,
                p,
                id,
            ) {
                Some(tab_name::text_of(texts, last_position(texts, id), id)->0)
            } else {
                None
            }),
{
    let after = moved(texts, tabs, panes);
    assert forall|p: usize| #[trigger] after.contains_key(p) implies !after[p].dom().is_empty() by {
        let id = choose|id: u32| #[trigger] lands(texts, tabs, panes, p, id);
        assert(after[p].dom().contains(id));
    }
}

/// Moves every text to the tab that holds its pane.
pub fn move_texts(texts: &TabTexts, tabs: &Vec<TabInfo>, panes: &PaneManifest) -> (r: TabTexts)
    ensures
        state::tab_texts(r@) == moved(
            state::tab_texts(texts@),
            data::tab_views(tabs@),
            panes@,
        ),
{
    let ghost all = state::tab_texts(texts@);
    let ghost tv = data::tab_views(tabs@);
    let keys = listed_places(texts);
    let mut r: TabTexts = BTreeMap::new();
    let mut i: usize = 0;
    while i < keys.len()
        invariant
            i <= keys@.len(),
            all == state::tab_texts(texts@),
            tv == data::tab_views(tabs@),
            ordered::lists(keys@, places(all)),
            compact(state::tab_texts(r@)),
            forall|p: usize, id: u32| #[trigger]
                tab_name::text_of(state::tab_texts(r@), p, id) == (if located(tv, panes@, id)
                    == Some(p) && latest_in(keys@.take(i as int), id) is Some {
                    tab_name::text_of(all, latest_in(keys@.take(i as int), id)->0, id)
                } else {
                    None
                }),
        decreases keys@.len() - i,
    {
        let (position, id) = keys[i];
        assert(keys@.take(i + 1).drop_last() =~= keys@.take(i as int));
        assert(keys@.take(i + 1).last() == (position, id));
        assert(places(all).contains((position, id))) by {
            assert(keys@.contains(keys@[i as int]));
        }
        if let Some(t) = tab_name::find_text(texts, position, id) {
            if let Some(target) = find_tab_for_pane(tabs, panes, id) {
                proof {
                    lemma_put(state::tab_texts(r@), target, id, t@);
                }
                put_text(&mut r, target, id, t.clone());
            }
        }
        i = i + 1;
    }
    proof {
        assert(keys@.take(i as int) =~= keys@);
        lemma_moved(all, tv, panes@);
        assert forall|p: usize, id: u32| #[trigger]
            tab_name::text_of(state::tab_texts(r@), p, id) == tab_name::text_of(
                moved(all, tv, panes@),
                p,
                id,
            ) by {
            lemma_last_position(all, keys@, id);
            lemma_latest_in(keys@, id);
            if let Some(q) = latest_in(keys@, id) {
                assert(places(all).contains((q, id)));
            }
        }
        lemma_same_texts(state::tab_texts(r@), moved(all, tv, panes@));
    }
    r
}

/// Where a pane has one text, that text follows the pane: afterwards it stands at the position of
/// the first tab that holds the pane and nowhere else, and nowhere at all where the pane is gone.
pub proof fn law_texts_follow_panes(
    texts: Texts,
    tabs: Seq<TabView>,
    panes: Map<usize, Seq<PaneView>>,
    before: usize,
    id: u32,
)
    requires
        tab_name::text_of(texts, before, id) is Some,
        forall|q: usize| #[trigger] tab_name::text_of(texts, q, id) is Some ==> q == before,
    ensures
        forall|p: usize| #[trigger]
            tab_name::text_of(moved(texts, tabs, panes), p, id) == (if located(tabs, panes, id)
                == Some(p) {
                tab_name::text_of(texts, before, id)
            } else {
                None
            }),
{
    lemma_moved(texts, tabs, panes);
    reveal(last_position);
    let l = last_position(texts, id);
    assert(tab_name::text_of(texts, l, id) is Some);
}

/// A pane without a text gets none, every text that stays stands where its pane is, and no tab is
/// listed without a text.
pub proof fn law_texts_stand_with_panes(
    texts: Texts,
    tabs: Seq<TabView>,
    panes: Map<usize, Seq<PaneView>>,
)
    ensures
        compact(moved(texts, tabs, panes)),
        forall|p: usize, id: u32| #[trigger]
            tab_name::text_of(moved(texts, tabs, panes), p, id) is Some ==> has_text(texts, id)
                && located(tabs, panes, id) == Some(p),
{
    lemma_moved(texts, tabs, panes);
}

/// Texts that were moved to their panes stay where they are while the tabs and panes stay.
pub proof fn law_moving_again_changes_nothing(
    texts: Texts,
    tabs: Seq<TabView>,
    panes: Map<usize, Seq<PaneView>>,
)
    ensures
        moved(moved(texts, tabs, panes), tabs, panes) == moved(texts, tabs, panes),
{
    let once = moved(texts, tabs, panes);
    let twice = moved(once, tabs, panes);
    lemma_moved(texts, tabs, panes);
    lemma_moved(once, tabs, panes);
    assert forall|p: usize, id: u32| #[trigger]
        tab_name::text_of(twice, p, id) == tab_name::text_of(once, p, id) by {
        if tab_name::text_of(once, p, id) is Some {
            law_texts_follow_panes(once, tabs, panes, p, id);
        } else if lands(once, tabs, panes, p, id) {
            let q = choose|q: usize| #[trigger] tab_name::text_of(once, q, id) is Some;
            assert(located(tabs, panes, id) == Some(q));
        }
    }
    lemma_same_texts(twice, once);
}

/// Taking a pane's texts away leaves it none anywhere, leaves every other pane its texts, and
/// leaves no tab listed without a text.
pub proof fn law_without_takes_one_pane(texts: Texts, gone: u32)
    ensures
        compact(without(texts, gone)),
        forall|p: usize, id: u32| #[trigger]
            tab_name::text_of(without(texts, gone), p, id) == (if id == gone {
                None
            } else {
                tab_name::text_of(texts, p, id)
            }),
{
    assert forall|p: usize, id: u32| #[trigger]
        tab_name::text_of(without(texts, gone), p, id) == (if id == gone {
            None
        } else {
            tab_name::text_of(texts, p, id)
        }) by {
        if id != gone && tab_name::text_of(texts, p, id) is Some {
            assert(texts[p].remove(gone).dom().contains(id));
        }
    }
}

} // verus!

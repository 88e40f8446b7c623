//! The name that a tab is shown under.
//!
//! Panes can give their tab a title. Then the tab is shown under the titles of its panes, chained
//! behind a robot face, and under what the leading pane is about. Without a title, a tab that was
//! never named is shown under the title of a pane, and any other tab under its own name.

use std::collections::BTreeMap;
use vstd::prelude::*;
use vstd::string::*;

use crate::data;
use crate::data::{PaneInfo, PaneManifest, PaneView, TabInfo, TabView};
use crate::number;
use crate::ordered;
use crate::search;
use crate::state;
use crate::state::TabTexts;
use crate::text;

verus! {

/// The character that the spinner shows after `idx` turns.
pub open spec fn spinner_frame(idx: nat) -> Seq<char> {
    if idx % 4 == 0 {
        "✦"@
    } else if idx % 4 == 2 {
        "✽"@
    } else {
        "✶"@
    }
}

/// The counter of the spinner after one more turn.
pub open spec fn next_turn(idx: usize) -> usize {
    if idx == usize::MAX {
        0
    } else {
        (idx + 1) as usize
    }
}

/// The spinner shows its four characters in turn, over and over, also where its counter starts
/// again at 0.
pub proof fn law_spinner_turns(idx: usize)
    ensures
        spinner_frame(idx as nat + 4) == spinner_frame(idx as nat),
        spinner_frame(0) == "✦"@,
        spinner_frame(1) == "✶"@,
        spinner_frame(2) == "✽"@,
        spinner_frame(3) == "✶"@,
        spinner_frame(next_turn(idx) as nat) == spinner_frame(idx as nat + 1),
{
    if idx == usize::MAX {
        assert(usize::MAX % 4 == 3);
    }
}

fn spinner(idx: usize) -> (r: &'static str)
    ensures
        r@ == spinner_frame(idx as nat),
{
    if idx % 4 == 0 {
        "✦"
    } else if idx % 4 == 2 {
        "✽"
    } else {
        "✶"
    }
}

/// What a pane's title adds to the chain: the title without the robot face that it may start
/// with, and with the spinner in the place of `{spin}`.
pub open spec fn symbol(raw: Seq<char>, frame: Seq<char>) -> Seq<char> {
    text::replaced(
        match text::stripped(raw, "🤖 "@) {
            Some(s) => s,
            None => raw,
        },
        "{spin}"@,
        frame,
    )
}

/// What the panes `ids` add to the chain.
pub open spec fn symbols(ids: Seq<u32>, titles: Map<u32, Seq<char>>, frame: Seq<char>) -> Seq<
    Seq<char>,
> {
    ids.map_values(|id: u32| symbol(titles[id], frame))
}

/// Whether the title of a pane holds a spinner.
pub open spec fn spinning(titles: Map<u32, Seq<char>>) -> spec_fn(u32) -> bool {
    |id: u32| text::has(titles[id], "{spin}"@)
}

/// The pane that the text of a chain is about: the first one with a spinner, or else the first.
pub open spec fn leading(ids: Seq<u32>, titles: Map<u32, Seq<char>>) -> u32 {
    match search::first(ids, spinning(titles)) {
        Some(id) => id,
        None => ids[0],
    }
}

/// A title without the character that it may start with and that is no letter and no number, and
/// without the spaces behind it; and whether there was such a character.
pub open spec fn unspun(s: Seq<char>) -> (Seq<char>, bool) {
    if s.len() > 0 && !text::alphanumeric(s[0]) {
        (text::trimmed_start(s.skip(1)), true)
    } else {
        (s, false)
    }
}

/// What a pane is about, where its title says so.
pub open spec fn pane_title(pane: PaneView) -> Option<Seq<char>> {
    let title = unspun(text::trimmed(pane.title)).0;
    if title.len() == 0 {
        None
    } else {
        Some(title)
    }
}

/// The terminal with the number `id`.
pub open spec fn terminal(id: u32) -> spec_fn(PaneView) -> bool {
    |p: PaneView| p.id == id && !p.is_plugin
}

/// A terminal, with whatever number.
pub open spec fn any_terminal() -> spec_fn(PaneView) -> bool {
    |p: PaneView| !p.is_plugin
}

/// The focused terminal.
pub open spec fn focused_terminal() -> spec_fn(PaneView) -> bool {
    |p: PaneView| p.is_focused && !p.is_plugin
}

/// What the pane that `p` picks out of a tab is about.
pub open spec fn picked_title(
    panes: Map<usize, Seq<PaneView>>,
    position: usize,
    p: spec_fn(PaneView) -> bool,
) -> Option<Seq<char>> {
    if panes.contains_key(position) {
        match search::first(panes[position], p) {
            Some(pane) => pane_title(pane),
            None => None,
        }
    } else {
        None
    }
}

/// The text of a pane, where it has one.
pub open spec fn text_of(
    texts: Map<usize, Map<u32, Seq<char>>>,
    position: usize,
    id: u32,
) -> Option<Seq<char>> {
    if texts.contains_key(position) && texts[position].contains_key(id) {
        Some(texts[position][id])
    } else {
        None
    }
}

/// The project and what the pane is about, as far as they are known.
pub open spec fn subject(project: Option<Seq<char>>, title: Option<Seq<char>>) -> Option<
    Seq<char>,
> {
    match (project, title) {
        (Some(p), Some(t)) => Some(p + " "@ + t),
        (Some(p), None) => Some(p),
        (None, Some(t)) => Some(t),
        (None, None) => None,
    }
}

/// A chain, the number of panes besides the first, and the text, as far as there are any.
pub open spec fn chain_text(chain: Seq<char>, extra: nat, subject: Option<Seq<char>>) -> Seq<char> {
    let counted = if extra > 0 {
        chain + " (+"@ + number::numeral(extra) + ")"@
    } else {
        chain
    };
    match subject {
        Some(t) => counted + (if extra > 0 {
            " | "@
        } else {
            " "@
        }) + t,
        None => counted,
    }
}

/// The name of a tab whose panes gave it the titles `titles`.
pub open spec fn titled_name(
    titles: Map<u32, Seq<char>>,
    position: usize,
    panes: Map<usize, Seq<PaneView>>,
    fallbacks: Map<usize, Map<u32, Seq<char>>>,
    spinner_idx: usize,
) -> Seq<char> {
    let ids = ordered::listing(titles.dom());
    let frame = spinner_frame(spinner_idx as nat);
    let lead = leading(ids, titles);
    chain_text(
        "🤖 "@ + text::joined(symbols(ids, titles, frame), " "@),
        (ids.len() - 1) as nat,
        subject(
            text_of(fallbacks, position, lead),
            picked_title(panes, position, terminal(lead)),
        ),
    )
}

/// Whether a tab still has the name that it was made with: `Tab #` and a number.
pub open spec fn is_default(name: Seq<char>) -> bool {
    match text::stripped(name, "Tab #"@) {
        Some(num) => num.len() > 0 && number::all_digits(num),
        None => false,
    }
}

/// What a tab that was never named is about: its focused terminal or, where none is focused, its
/// first.
pub open spec fn untitled_name(panes: Map<usize, Seq<PaneView>>, position: usize) -> Option<
    Seq<char>,
> {
    if panes.contains_key(position) && search::first(panes[position], focused_terminal()) is Some {
        picked_title(panes, position, focused_terminal())
    } else {
        picked_title(panes, position, any_terminal())
    }
}

/// The name that `tab` is shown under.
pub open spec fn shown_name(
    tab: TabView,
    panes: Map<usize, Seq<PaneView>>,
    overrides: Map<usize, Map<u32, Seq<char>>>,
    fallbacks: Map<usize, Map<u32, Seq<char>>>,
    spinner_idx: usize,
) -> Seq<char> {
    if overrides.contains_key(tab.position) && !overrides[tab.position].dom().is_empty() {
        titled_name(overrides[tab.position], tab.position, panes, fallbacks, spinner_idx)
    } else if is_default(tab.name) && untitled_name(panes, tab.position) is Some {
        untitled_name(panes, tab.position)->0
    } else {
        tab.name
    }
}

/// A tab with the title of one pane is shown under a robot face, what the title says, and the
/// project and the title of that pane, as far as they are known.
pub proof fn law_one_title(
    tab: TabView,
    panes: Map<usize, Seq<PaneView>>,
    overrides: Map<usize, Map<u32, Seq<char>>>,
    fallbacks: Map<usize, Map<u32, Seq<char>>>,
    spinner_idx: usize,
    id: u32,
    title: Seq<char>,
)
    requires
        overrides.contains_key(tab.position),
        overrides[tab.position] == Map::<u32, Seq<char>>::empty().insert(id, title),
    ensures
        shown_name(tab, panes, overrides, fallbacks, spinner_idx) == chain_text(
            "🤖 "@ + symbol(title, spinner_frame(spinner_idx as nat)),
            0,
            subject(
                text_of(fallbacks, tab.position, id),
                picked_title(panes, tab.position, terminal(id)),
            ),
        ),
{
    let titles = overrides[tab.position];
    let ids = seq![id];
    assert(titles.dom().contains(id));
    assert forall|k: u32| #[trigger] titles.dom().contains(k) <==> ids.contains(k) by {
        assert(ids[0] == id);
    }
    ordered::lemma_listing(ids, titles.dom());
    let frame = spinner_frame(spinner_idx as nat);
    search::lemma_first_at(ids, spinning(titles), 0);
    assert(symbols(ids, titles, frame)[0] == symbol(title, frame));
}

/// A tab without a title keeps the name that it was given.
pub proof fn law_named_tabs_keep_their_names(
    tab: TabView,
    panes: Map<usize, Seq<PaneView>>,
    overrides: Map<usize, Map<u32, Seq<char>>>,
    fallbacks: Map<usize, Map<u32, Seq<char>>>,
    spinner_idx: usize,
)
    requires
        forall|id: u32| #[trigger] text_of(overrides, tab.position, id) is None,
        !is_default(tab.name),
    ensures
        shown_name(tab, panes, overrides, fallbacks, spinner_idx) == tab.name,
{
    if overrides.contains_key(tab.position) && !overrides[tab.position].dom().is_empty() {
        let id = overrides[tab.position].dom().choose();
        assert(text_of(overrides, tab.position, id) is Some);
    }
}

/// Strips a leading spinner character and the spaces behind it, such as `⠋ ` or `● `, from the
/// title of a pane. Any character that is no letter and no number counts as one.
///
/// Returns the rest, and whether there was such a character.
pub fn strip_spinner_prefix(s: &str) -> (r: (String, bool))
    ensures
        (r.0@, r.1) == unspun(s@),
{
    let chars = text::chars_of(s);
    if chars.len() > 0 && !chars[0].is_alphanumeric() {
        let tail = text::text_between(&chars, 1, chars.len());
        assert(tail@ =~= s@.skip(1));
        (text::trim_start(tail.as_str()), true)
    } else {
        (s.to_owned(), false)
    }
}

/// Whether a tab still has the name that it was made with: `Tab #` and a number.
pub fn is_default_tab_name(name: &str) -> (r: bool)
    ensures
        r == is_default(name@),
{
    match text::strip_prefix(name, "Tab #") {
        Some(num) => {
            let digits = text::chars_of(num.as_str());
            let mut i: usize = 0;
            while i < digits.len()
                invariant
                    i <= digits@.len(),
                    digits@ == num@,
                    text::stripped(name@, "Tab #"@) == Some(num@),
                    forall|j: int| 0 <= j < i ==> number::is_digit(#[trigger] digits@[j]),
                decreases digits@.len() - i,
            {
                if digits[i] < '0' || digits[i] > '9' {
                    assert(!number::is_digit(num@[i as int]));
                    return false;
                }
                i = i + 1;
            }
            digits.len() > 0
        },
        None => false,
    }
}

fn title_of(pane: &PaneInfo) -> (r: Option<String>)
    ensures
        text::opt(r) == pane_title(pane@),
{
    let (title, _) = strip_spinner_prefix(text::trim(pane.title.as_str()).as_str());
    if title.as_str().is_empty() {
        None
    } else {
        Some(title)
    }
}

/// The terminal with the number `id`.
pub fn find_terminal(panes: &Vec<PaneInfo>, id: u32) -> (r: Option<&PaneInfo>)
    ensures
        match r {
            Some(p) => search::first(data::pane_views(panes@), terminal(id)) == Some(p@),
            None => search::first(data::pane_views(panes@), terminal(id)) is None,
        },
{
    let ghost all = data::pane_views(panes@);
    let mut i: usize = 0;
    while i < panes.len()
        invariant
            i <= panes@.len(),
            all == data::pane_views(panes@),
            search::first_at(all, terminal(id), 0) == search::first_at(all, terminal(id), i as int),
        decreases panes@.len() - i,
    {
        assert(all[i as int] == panes@[i as int]@);
        if panes[i].id == id && !panes[i].is_plugin {
            return Some(&panes[i]);
        }
        i = i + 1;
    }
    None
}

fn find_focused_terminal(panes: &Vec<PaneInfo>) -> (r: Option<&PaneInfo>)
    ensures
        match r {
            Some(p) => search::first(data::pane_views(panes@), focused_terminal()) == Some(p@),
            None => search::first(data::pane_views(panes@), focused_terminal()) is None,
        },
{
    let ghost all = data::pane_views(panes@);
    let mut i: usize = 0;
    while i < panes.len()
        invariant
            i <= panes@.len(),
            all == data::pane_views(panes@),
            search::first_at(all, focused_terminal(), 0) == search::first_at(
                all,
                focused_terminal(),
                i as int,
            ),
        decreases panes@.len() - i,
    {
        assert(all[i as int] == panes@[i as int]@);
        if panes[i].is_focused && !panes[i].is_plugin {
            return Some(&panes[i]);
        }
        i = i + 1;
    }
    None
}

fn find_any_terminal(panes: &Vec<PaneInfo>) -> (r: Option<&PaneInfo>)
    ensures
        match r {
            Some(p) => search::first(data::pane_views(panes@), any_terminal()) == Some(p@),
            None => search::first(data::pane_views(panes@), any_terminal()) is None,
        },
{
    let ghost all = data::pane_views(panes@);
    let mut i: usize = 0;
    while i < panes.len()
        invariant
            i <= panes@.len(),
            all == data::pane_views(panes@),
            search::first_at(all, any_terminal(), 0) == search::first_at(
                all,
                any_terminal(),
                i as int,
            ),
        decreases panes@.len() - i,
    {
        assert(all[i as int] == panes@[i as int]@);
        if !panes[i].is_plugin {
            return Some(&panes[i]);
        }
        i = i + 1;
    }
    None
}

fn describe_leading(panes: &PaneManifest, position: usize, id: u32) -> (r: Option<String>)
    ensures
        text::opt(r) == picked_title(panes@, position, terminal(id)),
{
    match panes.of_tab(position) {
        Some(ps) => match find_terminal(ps, id) {
            Some(p) => title_of(p),
            None => None,
        },
        None => None,
    }
}

fn describe_unnamed(panes: &PaneManifest, position: usize) -> (r: Option<String>)
    ensures
        text::opt(r) == untitled_name(panes@, position),
{
    match panes.of_tab(position) {
        Some(ps) => match find_focused_terminal(ps) {
            Some(p) => title_of(p),
            None => match find_any_terminal(ps) {
                Some(p) => title_of(p),
                None => None,
            },
        },
        None => None,
    }
}

/// The text that `texts` holds for a pane of the tab at `position`.
pub fn find_text(texts: &TabTexts, position: usize, id: u32) -> (r: Option<&String>)
    ensures
        match r {
            Some(t) => text_of(state::tab_texts(texts@), position, id) == Some(t@),
            None => text_of(state::tab_texts(texts@), position, id) is None,
        },
{
    match texts.get(&position) {
        Some(inner) => inner.get(&id),
        None => None,
    }
}

fn find_leading(ids: &Vec<u32>, titles: &BTreeMap<u32, String>) -> (r: u32)
    requires
        ids@.len() > 0,
        forall|i: int| 0 <= i < ids@.len() ==> titles@.contains_key(#[trigger] ids@[i]),
    ensures
        r == leading(ids@, state::texts(titles@)),
{
    let ghost views = state::texts(titles@);
    let mut i: usize = 0;
    while i < ids.len()
        invariant
            i <= ids@.len(),
            views == state::texts(titles@),
            forall|i: int| 0 <= i < ids@.len() ==> titles@.contains_key(#[trigger] ids@[i]),
            search::first_at(ids@, spinning(views), 0) == search::first_at(
                ids@,
                spinning(views),
                i as int,
            ),
        decreases ids@.len() - i,
    {
        match titles.get(&ids[i]) {
            Some(t) => {
                assert(views[ids@[i as int]] == t@);
                if text::contains(t.as_str(), "{spin}") {
                    return ids[i];
                }
            },
            None => {},
        }
        i = i + 1;
    }
    ids[0]
}

fn chain_symbols(ids: &Vec<u32>, titles: &BTreeMap<u32, String>, frame: &str) -> (r: Vec<String>)
    requires
        forall|i: int| 0 <= i < ids@.len() ==> titles@.contains_key(#[trigger] ids@[i]),
    ensures
        r@.map_values(|s: String| s@) == symbols(ids@, state::texts(titles@), frame@),
{
    proof {
        reveal_strlit("{spin}");
    }
    let ghost all = symbols(ids@, state::texts(titles@), frame@);
    let mut r: Vec<String> = Vec::new();
    let mut i: usize = 0;
    while i < ids.len()
        invariant
            i <= ids@.len(),
            "{spin}"@.len() > 0,
            forall|i: int| 0 <= i < ids@.len() ==> titles@.contains_key(#[trigger] ids@[i]),
            all == symbols(ids@, state::texts(titles@), frame@),
            r@.map_values(|s: String| s@) == all.take(i as int),
        decreases ids@.len() - i,
    {
        let ghost before = r@;
        match titles.get(&ids[i]) {
            Some(raw) => {
                let bare = match text::strip_prefix(raw.as_str(), "🤖 ") {
                    Some(s) => s,
                    None => raw.clone(),
                };
                r.push(text::replace(bare.as_str(), "{spin}", frame));
            },
            None => {},
        }
        assert(r@.map_values(|s: String| s@) =~= before.map_values(|s: String| s@).push(
            all[i as int],
        ));
        i = i + 1;
    }
    assert(all.take(i as int) =~= all);
    r
}

fn write_chain(chain: String, extra: usize, about: Option<String>) -> (r: String)
    ensures
        r@ == chain_text(chain@, extra as nat, text::opt(about)),
{
    let mut out = chain;
    if extra > 0 {
        out.append(" (+");
        out.append(number::decimal(extra as u128).as_str());
        out.append(")");
    }
    match about {
        Some(t) => {
            if extra > 0 {
                out.append(" | ");
            } else {
                out.append(" ");
            }
            out.append(t.as_str());
        },
        None => {},
    }
    out
}

fn name_subject(project: Option<&String>, title: Option<String>) -> (r: Option<String>)
    ensures
        text::opt(r) == subject(
            match project {
                Some(p) => Some(p@),
                None => None,
            },
            text::opt(title),
        ),
{
    match (project, title) {
        (Some(p), Some(t)) => {
            let mut s = p.clone();
            s.append(" ");
            s.append(t.as_str());
            Some(s)
        },
        (Some(p), None) => Some(p.clone()),
        (None, Some(t)) => Some(t),
        (None, None) => None,
    }
}

/// The name that `tab` is shown under.
pub fn resolve_tab_name(
    tab: &TabInfo,
    panes: &PaneManifest,
    overrides: &TabTexts,
    fallbacks: &TabTexts,
    spinner_idx: usize,
) -> (r: String)
    ensures
        r@ == shown_name(
            tab@,
            panes@,
            state::tab_texts(overrides@),
            state::tab_texts(fallbacks@),
            spinner_idx,
        ),
{
    match overrides.get(&tab.position) {
        Some(titles) => {
            let ids = ordered::pane_ids(titles);
            let ghost views = state::texts(titles@);
            proof {
                assert(views.dom() =~= titles@.dom());
                assert forall|i: int| 0 <= i < ids@.len() implies titles@.contains_key(
                    #[trigger] ids@[i],
                ) by {
                    assert(titles@.dom().contains(ids@[i]));
                }
            }
            if ids.len() > 0 {
                assert(views.dom().contains(ids@[0]));
                let frame = spinner(spinner_idx);
                let chained = text::join(&chain_symbols(&ids, titles, frame), " ");
                let chain = text::concat("🤖 ", chained.as_str());
                let lead = find_leading(&ids, titles);
                let about = name_subject(
                    find_text(fallbacks, tab.position, lead),
                    describe_leading(panes, tab.position, lead),
                );
                return write_chain(chain, ids.len() - 1, about);
            }
            proof {
                assert(views.dom() =~= Set::empty());
            }
        },
        None => {},
    }
    if is_default_tab_name(tab.name.as_str()) {
        match describe_unnamed(panes, tab.position) {
            Some(title) => {
                return title;
            },
            None => {},
        }
    }
    tab.name.clone()
}

} // verus!

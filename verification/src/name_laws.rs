//! What holds of the names that tabs are shown under, and of the tabs that panes are found in.

use vstd::prelude::*;

use crate::data::{PaneView, TabView};
use crate::number;
use crate::ordered;
use crate::search;
use crate::tab_name;
use crate::text;
use crate::text_laws;
use crate::titles;

verus! {

/// Whether the pane at index `j` of the list for `position` is the terminal `id`: its number is
/// `id` and it is no plugin, whatever else it is.
pub open spec fn terminal_at(
    panes: Map<usize, Seq<PaneView>>,
    position: usize,
    j: int,
    id: u32,
) -> bool {
    &&& panes.contains_key(position)
    &&& 0 <= j < panes[position].len()
    &&& panes[position][j].id == id
    &&& !panes[position][j].is_plugin
}

proof fn lemma_has_terminal(panes: Map<usize, Seq<PaneView>>, position: usize, id: u32)
    requires
        panes.contains_key(position),
    ensures
        search::first(panes[position], tab_name::terminal(id)) is Some <==> exists|j: int|
            terminal_at(panes, position, j, id),
{
    let all = panes[position];
    let p = tab_name::terminal(id);
    search::lemma_first_at(all, p, 0);
    match search::first_at(all, p, 0) {
        Some(j) => {
            assert(terminal_at(panes, position, j, id));
        },
        None => {
            assert forall|j: int| !terminal_at(panes, position, j, id) by {
                if terminal_at(panes, position, j, id) {
                    assert(p(all[j]));
                }
            }
        },
    }
}

/// A pane is found exactly where the list of panes of a known tab holds a terminal with its number,
/// and then in the first such tab.
pub proof fn law_panes_are_found(tabs: Seq<TabView>, panes: Map<usize, Seq<PaneView>>, id: u32)
    ensures
        titles::located(tabs, panes, id) is Some <==> exists|i: int, j: int|
            0 <= i < tabs.len() && #[trigger] terminal_at(panes, tabs[i].position, j, id),
        match titles::located(tabs, panes, id) {
            Some(position) => exists|i: int|
                {
                    &&& 0 <= i < tabs.len()
                    &&& (#[trigger] tabs[i]).position == position
                    &&& exists|j: int| terminal_at(panes, position, j, id)
                    &&& forall|k: int, j: int|
                        0 <= k < i ==> !#[trigger] terminal_at(panes, tabs[k].position, j, id)
                },
            None => true,
        },
{
    let p = titles::holds_terminal(panes, id);
    search::lemma_first_at(tabs, p, 0);
    assert forall|k: int| 0 <= k < tabs.len() implies p(#[trigger] tabs[k]) == (exists|j: int|
        terminal_at(panes, tabs[k].position, j, id)) by {
        if panes.contains_key(tabs[k].position) {
            lemma_has_terminal(panes, tabs[k].position, id);
        }
    }
    match search::first_at(tabs, p, 0) {
        Some(i) => {
            assert(p(tabs[i]));
            let j = choose|j: int| terminal_at(panes, tabs[i].position, j, id);
            assert(terminal_at(panes, tabs[i].position, j, id));
            assert forall|k: int, m: int| 0 <= k < i implies !#[trigger] terminal_at(
                panes,
                tabs[k].position,
                m,
                id,
            ) by {
                assert(!p(tabs[k]));
            }
        },
        None => {
            assert forall|k: int, m: int| 0 <= k < tabs.len() implies !#[trigger] terminal_at(
                panes,
                tabs[k].position,
                m,
                id,
            ) by {
                assert(!p(tabs[k]));
            }
        },
    }
}

/// A pane is in a list exactly where some list of panes holds a terminal with its number, be it the
/// list of a known tab or not.
pub proof fn law_panes_are_listed(panes: Map<usize, Seq<PaneView>>, id: u32)
    ensures
        titles::listed(panes, id) <==> exists|position: usize, j: int|
            terminal_at(panes, position, j, id),
{
    if titles::listed(panes, id) {
        let p = choose|p: usize| #[trigger]
            panes.contains_key(p) && search::first(panes[p], tab_name::terminal(id)) is Some;
        lemma_has_terminal(panes, p, id);
        let j = choose|j: int| terminal_at(panes, p, j, id);
        assert(terminal_at(panes, p, j, id));
    }
    if exists|position: usize, j: int| terminal_at(panes, position, j, id) {
        let (p, j) = choose|position: usize, j: int| terminal_at(panes, position, j, id);
        lemma_has_terminal(panes, p, id);
        assert(panes.contains_key(p));
    }
}

/// The text of a pane is the one that is stored for its number at the position, if one is.
pub proof fn law_texts_by_place(
    texts: Map<usize, Map<u32, Seq<char>>>,
    position: usize,
    id: u32,
    s: Seq<char>,
)
    ensures
        tab_name::text_of(texts, position, id) == Some(s) <==> texts.contains_key(position)
            && texts[position].contains_key(id) && texts[position][id] == s,
{
}

/// A title that spins is one that holds the placeholder of the spinner; and some title of a tab
/// spins exactly where such a one is stored.
pub proof fn law_spinning_titles(texts: Map<usize, Map<u32, Seq<char>>>)
    ensures
        titles::spins(texts) <==> exists|p: usize, id: u32, a: Seq<char>, b: Seq<char>|
            texts.contains_key(p) && texts[p].contains_key(id) && texts[p][id] == #[trigger] (a
                + "{spin}"@ + b) && #[trigger] holds(texts, p, id),
{
    if titles::spins(texts) {
        let (p, id) = choose|p: usize, id: u32|
            match #[trigger] tab_name::text_of(texts, p, id) {
                Some(t) => text::has(t, "{spin}"@),
                None => false,
            };
        let t = texts[p][id];
        text_laws::law_has(t, "{spin}"@);
        let (a, b) = choose|a: Seq<char>, b: Seq<char>| t == #[trigger] (a + "{spin}"@ + b);
        assert(holds(texts, p, id));
        assert(texts[p][id] == a + "{spin}"@ + b);
    }
    if exists|p: usize, id: u32, a: Seq<char>, b: Seq<char>|
        texts.contains_key(p) && texts[p].contains_key(id) && texts[p][id] == #[trigger] (a
            + "{spin}"@ + b) && #[trigger] holds(texts, p, id) {
        let (p, id, a, b) = choose|p: usize, id: u32, a: Seq<char>, b: Seq<char>|
            texts.contains_key(p) && texts[p].contains_key(id) && texts[p][id] == #[trigger] (a
                + "{spin}"@ + b) && #[trigger] holds(texts, p, id);
        text_laws::law_has(texts[p][id], "{spin}"@);
        assert(tab_name::text_of(texts, p, id) is Some);
    }
}

/// Whether something is stored for a pane at a position.
pub open spec fn holds(texts: Map<usize, Map<u32, Seq<char>>>, p: usize, id: u32) -> bool {
    texts.contains_key(p) && texts[p].contains_key(id)
}

/// Whether a text is nothing but whitespace.
pub open spec fn blank(s: Seq<char>) -> bool {
    forall|i: int| 0 <= i < s.len() ==> text::whitespace(#[trigger] s[i])
}

/// Whether a text is not empty and has no whitespace at its ends.
pub open spec fn solid(s: Seq<char>) -> bool {
    s.len() > 0 && !text::whitespace(s[0]) && !text::whitespace(s[s.len() - 1])
}

proof fn lemma_trimmed(a: Seq<char>, t: Seq<char>, b: Seq<char>)
    requires
        blank(a),
        blank(b),
    ensures
        solid(t) ==> text::trimmed(a + t + b) == t && text::trimmed_start(a + t) == t,
        text::trimmed(a).len() == 0,
        text::trimmed_start(a).len() == 0,
{
    text_laws::law_trimming(a);
    let (p, q) = choose|p: int, q: int|
        {
            &&& 0 <= p <= q <= a.len()
            &&& text::trimmed(a) == #[trigger] a.subrange(p, q)
            &&& forall|i: int| 0 <= i < p ==> text::whitespace(#[trigger] a[i])
            &&& forall|i: int| q <= i < a.len() ==> text::whitespace(#[trigger] a[i])
            &&& p < q ==> !text::whitespace(a[p]) && !text::whitespace(a[q - 1])
        };
    let r = choose|n: int|
        {
            &&& 0 <= n <= a.len()
            &&& text::trimmed_start(a) == #[trigger] a.skip(n)
            &&& forall|i: int| 0 <= i < n ==> text::whitespace(#[trigger] a[i])
            &&& n < a.len() ==> !text::whitespace(a[n])
        };
    if solid(t) {
        let s = a + t + b;
        let n = a.len() as int;
        let m = n + t.len();
        text_laws::law_trimming(s);
        let (x, y) = choose|x: int, y: int|
            {
                &&& 0 <= x <= y <= s.len()
                &&& text::trimmed(s) == #[trigger] s.subrange(x, y)
                &&& forall|i: int| 0 <= i < x ==> text::whitespace(#[trigger] s[i])
                &&& forall|i: int| y <= i < s.len() ==> text::whitespace(#[trigger] s[i])
                &&& x < y ==> !text::whitespace(s[x]) && !text::whitespace(s[y - 1])
            };
        assert(s[n] == t[0]);
        assert(s[m - 1] == t[t.len() - 1]);
        assert(x <= n && y >= m);
        if x < n {
            assert(s[x] == a[x]);
        }
        if y > m {
            assert(s[y - 1] == b[y - 1 - m]);
        }
        assert(s.subrange(n, m) =~= t);
        let u = a + t;
        text_laws::law_trimming(u);
        let z = choose|z: int|
            {
                &&& 0 <= z <= u.len()
                &&& text::trimmed_start(u) == #[trigger] u.skip(z)
                &&& forall|i: int| 0 <= i < z ==> text::whitespace(#[trigger] u[i])
                &&& z < u.len() ==> !text::whitespace(u[z])
            };
        assert(u[n] == t[0]);
        assert(z <= n);
        if z < n {
            assert(u[z] == a[z]);
        }
        assert(u.skip(n) =~= t);
    }
}

/// What a pane is about is its title without the whitespace around it. A sign that the title starts
/// with, and that is no letter and no number, is left out, together with the whitespace behind it.
/// A title that holds nothing else is none.
pub proof fn law_pane_titles(
    pane: PaneView,
    before: Seq<char>,
    sign: char,
    between: Seq<char>,
    body: Seq<char>,
    behind: Seq<char>,
)
    requires
        blank(before),
        blank(between),
        blank(behind),
        !text::whitespace(sign),
    ensures
        solid(body) && text::alphanumeric(body[0]) && pane.title == before + body + behind
            ==> tab_name::pane_title(pane) == Some(body),
        solid(body) && !text::alphanumeric(sign) && pane.title == before + (seq![sign] + between
            + body) + behind ==> tab_name::pane_title(pane) == Some(body),
        !text::alphanumeric(sign) && pane.title == before + seq![sign] + behind
            ==> tab_name::pane_title(pane) is None,
        blank(pane.title) ==> tab_name::pane_title(pane) is None,
{
    lemma_trimmed(before, body, behind);
    let long = seq![sign] + between + body;
    if solid(body) {
        lemma_trimmed(before, long, behind);
        lemma_trimmed(between, body, Seq::empty());
        assert(long[0] == sign);
        assert(long[long.len() - 1] == body[body.len() - 1]);
        assert(long.skip(1) =~= between + body);
    }
    let short = seq![sign];
    lemma_trimmed(before, short, behind);
    lemma_trimmed(Seq::empty(), body, Seq::empty());
    assert(short.skip(1) =~= Seq::empty());
    if blank(pane.title) {
        lemma_trimmed(pane.title, body, Seq::empty());
    }
}

/// A sign that a text starts with, and that is no letter and no number, is taken off together with the
/// whitespace behind it, and what is left says so. A text that starts otherwise stays as it is.
pub proof fn law_leading_signs(sign: char, between: Seq<char>, body: Seq<char>)
    requires
        blank(between),
        body.len() > 0 ==> !text::whitespace(body[0]),
    ensures
        !text::alphanumeric(sign) ==> tab_name::unspun(seq![sign] + between + body) == (body, true),
        body.len() == 0 || text::alphanumeric(body[0]) ==> tab_name::unspun(body) == (body, false),
{
    let long = seq![sign] + between + body;
    assert(long.skip(1) =~= between + body);
    lemma_blank_start(between, body);
}

proof fn lemma_blank_start(between: Seq<char>, body: Seq<char>)
    requires
        blank(between),
        body.len() > 0 ==> !text::whitespace(body[0]),
    ensures
        text::trimmed_start(between + body) == body,
    decreases between.len(),
{
    let s = between + body;
    if between.len() > 0 {
        let fewer = between.skip(1);
        assert forall|i: int| 0 <= i < fewer.len() implies text::whitespace(#[trigger] fewer[i]) by {
            assert(between[i + 1] == fewer[i]);
        }
        lemma_blank_start(fewer, body);
        assert(s[0] == between[0]);
        assert(s.skip(1) =~= fewer + body);
    } else {
        assert(s =~= body);
    }
}

/// Which characters of ASCII count as letters and numbers, and that the others go by Unicode.
pub proof fn law_letters(c: char)
    ensures
        c <= '\u{7f}' ==> (text::alphanumeric(c) <==> '0' <= c <= '9' || 'A' <= c <= 'Z' || 'a' <= c
            <= 'z'),
        c > '\u{7f}' ==> text::alphanumeric(c) == text::unicode_alphanumeric(c),
{
}

/// A tab was never named exactly where its name is `Tab #` and a number of decimal digits.
pub proof fn law_names_of_unnamed_tabs(name: Seq<char>, digits: Seq<char>)
    ensures
        tab_name::is_default("Tab #"@ + digits) <==> digits.len() > 0 && (forall|i: int|
            0 <= i < digits.len() ==> '0' <= #[trigger] digits[i] && digits[i] <= '9'),
        tab_name::is_default(name) ==> exists|r: Seq<char>| name == #[trigger] ("Tab #"@ + r),
{
    text_laws::law_affixes(name, "Tab #"@, digits);
    if tab_name::is_default("Tab #"@ + digits) {
        assert forall|i: int| 0 <= i < digits.len() implies '0' <= #[trigger] digits[i] && digits[i]
            <= '9' by {
            assert(number::is_digit(digits[i]));
        }
    }
}

/// What the leading pane of a tab is about: its project, the title of the pane, or both with a space
/// between them.
pub open spec fn about(project: Option<Seq<char>>, title: Option<Seq<char>>) -> Option<Seq<char>> {
    if project is Some && title is Some {
        Some(project->0 + " "@ + title->0)
    } else if project is Some {
        project
    } else {
        title
    }
}

/// The title of the first of `panes` that is the terminal `id`.
proof fn lemma_terminal_title(
    panes: Map<usize, Seq<PaneView>>,
    position: usize,
    id: u32,
    title: Option<Seq<char>>,
)
    requires
        is_title_of(panes, position, id, title),
    ensures
        tab_name::picked_title(panes, position, tab_name::terminal(id)) == title,
{
    if panes.contains_key(position) {
        let all = panes[position];
        let p = tab_name::terminal(id);
        search::lemma_first_at(all, p, 0);
        match search::first_at(all, p, 0) {
            Some(j) => {
                assert(terminal_at(panes, position, j, id));
                assert forall|k: int| 0 <= k < j implies !#[trigger] terminal_at(
                    panes,
                    position,
                    k,
                    id,
                ) by {
                    assert(!p(all[k]));
                }
            },
            None => {
                assert forall|k: int| !#[trigger] terminal_at(panes, position, k, id) by {
                    if 0 <= k < all.len() {
                        assert(!p(all[k]));
                    }
                }
            },
        }
    }
}

/// Whether `title` is what the terminal `id` of the tab at `position` is about, taken from the first
/// pane of the list that is that terminal.
pub open spec fn is_title_of(
    panes: Map<usize, Seq<PaneView>>,
    position: usize,
    id: u32,
    title: Option<Seq<char>>,
) -> bool {
    &&& forall|j: int|
        #[trigger] terminal_at(panes, position, j, id) && (forall|k: int|
            0 <= k < j ==> !#[trigger] terminal_at(panes, position, k, id)) ==> title
            == tab_name::pane_title(panes[position][j])
    &&& (forall|j: int| !#[trigger] terminal_at(panes, position, j, id)) ==> title is None
}

/// Whether `bare` is a pane's title without the robot face that it may start with.
pub open spec fn is_bare(title: Seq<char>, bare: Seq<char>) -> bool {
    ||| title == "🤖 "@ + bare
    ||| title == bare && forall|r: Seq<char>| title != #[trigger] ("🤖 "@ + r)
}

proof fn lemma_bare(title: Seq<char>, bare: Seq<char>, frame: Seq<char>)
    requires
        is_bare(title, bare),
    ensures
        tab_name::symbol(title, frame) == text::replaced(bare, "{spin}"@, frame),
{
    text_laws::law_affixes(title, "🤖 "@, bare);
    if title != "🤖 "@ + bare && text::starts(title, "🤖 "@) {
        let r = choose|r: Seq<char>| title == #[trigger] ("🤖 "@ + r);
        assert(title != "🤖 "@ + r);
    }
}

/// A tab whose panes gave it titles, as many as there are, is shown under a robot face and under
/// what each of the titles says, in the order of the panes, with spaces between them and with the
/// spinner in its place. Where there is more than one, the number of the others follows in
/// parentheses. At the end stands what the leading pane is about, behind a bar where there is more
/// than one title and behind a space where there is one. The leading pane is the first one whose
/// title spins or, where none does, the first one.
///
/// `ids` are the panes in ascending order, `bare` their titles without robot faces, `said` the same
/// with the spinner in its place, and `lead` the index of the leading pane.
pub proof fn law_titles_are_chained(
    tab: TabView,
    panes: Map<usize, Seq<PaneView>>,
    overrides: Map<usize, Map<u32, Seq<char>>>,
    fallbacks: Map<usize, Map<u32, Seq<char>>>,
    spinner_idx: usize,
    ids: Seq<u32>,
    bare: Seq<Seq<char>>,
    said: Seq<Seq<char>>,
    lead: int,
    project: Option<Seq<char>>,
    title: Option<Seq<char>>,
)
    requires
        overrides.contains_key(tab.position),
        ids.len() > 0,
        forall|i: int, j: int| 0 <= i < j < ids.len() ==> #[trigger] ids[i] < #[trigger] ids[j],
        forall|id: u32|
            #[trigger] overrides[tab.position].contains_key(id) <==> exists|i: int|
                0 <= i < ids.len() && #[trigger] ids[i] == id,
        bare.len() == ids.len(),
        said.len() == ids.len(),
        forall|i: int|
            0 <= i < ids.len() ==> is_bare(overrides[tab.position][ids[i]], #[trigger] bare[i]),
        forall|i: int|
            0 <= i < ids.len() ==> #[trigger] said[i] == text::replaced(
                bare[i],
                "{spin}"@,
                tab_name::spinner_frame(spinner_idx as nat),
            ),
        0 <= lead < ids.len(),
        ({
            let spins = |i: int| text::has(overrides[tab.position][ids[i]], "{spin}"@);
            ||| spins(lead) && forall|i: int| 0 <= i < lead ==> !#[trigger] spins(i)
            ||| lead == 0 && forall|i: int| 0 <= i < ids.len() ==> !#[trigger] spins(i)
        }),
        project == (if fallbacks.contains_key(tab.position) && fallbacks[tab.position].contains_key(
            ids[lead],
        ) {
            Some(fallbacks[tab.position][ids[lead]])
        } else {
            None
        }),
        is_title_of(panes, tab.position, ids[lead], title),
    ensures
        ({
            let name = tab_name::shown_name(tab, panes, overrides, fallbacks, spinner_idx);
            let chain = "🤖 "@ + text::joined(said, " "@);
            let counted = if ids.len() >= 2 {
                chain + " (+"@ + number::numeral((ids.len() - 1) as nat) + ")"@
            } else {
                chain
            };
            name == (match about(project, title) {
                Some(t) => if ids.len() >= 2 {
                    counted + " | "@ + t
                } else {
                    counted + " "@ + t
                },
                None => counted,
            })
        }),
{
    let titles = overrides[tab.position];
    let frame = tab_name::spinner_frame(spinner_idx as nat);
    assert forall|id: u32| #[trigger] titles.dom().contains(id) <==> ids.contains(id) by {
        assert(titles.contains_key(id) <==> exists|i: int|
            0 <= i < ids.len() && #[trigger] ids[i] == id);
    }
    assert(titles.contains_key(ids[0]));
    assert(titles.dom().contains(ids[0]));
    assert(ordered::lists(ids, titles.dom()));
    ordered::lemma_listing(ids, titles.dom());
    let spins = |i: int| text::has(titles[ids[i]], "{spin}"@);
    let p = tab_name::spinning(titles);
    search::lemma_first_at(ids, p, 0);
    assert(tab_name::leading(ids, titles) == ids[lead]) by {
        match search::first_at(ids, p, 0) {
            Some(k) => {
                assert(p(ids[k]));
                assert(spins(k));
                if k < lead {
                    assert(!spins(k));
                }
                if lead < k {
                    assert(!p(ids[lead]));
                    assert(!spins(lead));
                }
            },
            None => {
                assert(!p(ids[lead]));
                assert(!spins(lead));
            },
        }
    }
    assert(tab_name::symbols(ids, titles, frame) =~= said) by {
        assert forall|i: int| 0 <= i < ids.len() implies #[trigger] tab_name::symbols(
            ids,
            titles,
            frame,
        )[i] == said[i] by {
            lemma_bare(titles[ids[i]], bare[i], frame);
        }
    }
    lemma_terminal_title(panes, tab.position, ids[lead], title);
}

/// Whether the pane at index `j` of the list for `position` is a terminal, and a focused one where
/// that is asked for.
pub open spec fn some_terminal_at(
    panes: Map<usize, Seq<PaneView>>,
    position: usize,
    j: int,
    focused: bool,
) -> bool {
    &&& panes.contains_key(position)
    &&& 0 <= j < panes[position].len()
    &&& !panes[position][j].is_plugin
    &&& focused ==> panes[position][j].is_focused
}

/// A tab without titles that was never named is shown under what a terminal of it is about: the
/// first focused one or, where none is focused, the first one. Where there is none, or where that
/// terminal says nothing, and where the tab was named, it is shown under its own name.
pub proof fn law_tabs_without_titles(
    tab: TabView,
    panes: Map<usize, Seq<PaneView>>,
    overrides: Map<usize, Map<u32, Seq<char>>>,
    fallbacks: Map<usize, Map<u32, Seq<char>>>,
    spinner_idx: usize,
    j: int,
)
    requires
        forall|id: u32|
            !(overrides.contains_key(tab.position)
                && #[trigger] overrides[tab.position].contains_key(id)),
    ensures
        ({
            let name = tab_name::shown_name(tab, panes, overrides, fallbacks, spinner_idx);
            let about = tab_name::pane_title(panes[tab.position][j]);
            let found = |focused: bool|
                {
                    &&& some_terminal_at(panes, tab.position, j, focused)
                    &&& forall|k: int|
                        0 <= k < j ==> !#[trigger] some_terminal_at(panes, tab.position, k, focused)
                };
            let none_focused = forall|k: int|
                !#[trigger] some_terminal_at(panes, tab.position, k, true);
            &&& !tab_name::is_default(tab.name) ==> name == tab.name
            &&& tab_name::is_default(tab.name) && (found(true) || none_focused && found(false))
                ==> name == (if about is Some {
                about->0
            } else {
                tab.name
            })
            &&& (forall|k: int| !#[trigger] some_terminal_at(panes, tab.position, k, false))
                ==> name == tab.name
        }),
{
    let position = tab.position;
    if overrides.contains_key(position) {
        assert(overrides[position].dom() =~= Set::empty()) by {
            assert forall|id: u32| !overrides[position].dom().contains(id) by {
                assert(!overrides[position].contains_key(id));
            }
        }
    }
    if panes.contains_key(position) {
        let all = panes[position];
        let f = tab_name::focused_terminal();
        let g = tab_name::any_terminal();
        search::lemma_first_at(all, f, 0);
        search::lemma_first_at(all, g, 0);
        assert forall|k: int| 0 <= k < all.len() implies f(#[trigger] all[k]) == some_terminal_at(
            panes,
            position,
            k,
            true,
        ) && g(all[k]) == some_terminal_at(panes, position, k, false) by {}
        if let Some(k) = search::first_at(all, f, 0) {
            assert(some_terminal_at(panes, position, k, true));
            assert(some_terminal_at(panes, position, k, false));
            if some_terminal_at(panes, position, j, true) && k < j {
                assert(some_terminal_at(panes, position, k, true));
            }
            if some_terminal_at(panes, position, j, true) && j < k {
                assert(!f(all[j]));
            }
        } else {
            if some_terminal_at(panes, position, j, true) {
                assert(!f(all[j]));
            }
            if let Some(k) = search::first_at(all, g, 0) {
                assert(some_terminal_at(panes, position, k, false));
                if some_terminal_at(panes, position, j, false) && j < k {
                    assert(!g(all[j]));
                }
            } else if some_terminal_at(panes, position, j, false) {
                assert(!g(all[j]));
            }
        }
    }
}

} // verus!

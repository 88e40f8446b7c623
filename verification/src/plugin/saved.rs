//! Titles on disk.
//!
//! The titles of a session are kept in a file, so that an instance of the bar that starts later
//! finds them there. The file holds three fields for each title: the pane, the title, and the
//! project. A field is its length, a colon, and that many characters.

use vstd::prelude::*;
use vstd::string::*;

use crate::number;
use crate::plugin::model;
use crate::plugin::model::{PendingTitle, PendingView};
use crate::search;
use crate::text;

verus! {

/// The file that holds the titles of a session.
pub open spec fn path_of(session: Seq<char>) -> Seq<char> {
    "/tmp/zjstatus-"@ + session + ".state"@
}

/// A field with the text `s`.
pub open spec fn field(s: Seq<char>) -> Seq<char> {
    number::numeral(s.len()) + seq![':'] + s
}

/// The text of the field for a project. An equals sign tells an empty project from none.
pub open spec fn project_text(project: Option<Seq<char>>) -> Seq<char> {
    match project {
        Some(f) => seq!['='] + f,
        None => Seq::empty(),
    }
}

/// The fields for a title.
pub open spec fn record(e: PendingView) -> Seq<char> {
    field(number::numeral(e.pane_id as nat)) + field(e.title) + field(project_text(e.project))
}

/// The fields for the titles `entries`.
pub open spec fn written(entries: Seq<PendingView>) -> Seq<char>
    decreases entries.len(),
{
    if entries.len() == 0 {
        Seq::empty()
    } else {
        record(entries[0]) + written(entries.drop_first())
    }
}

/// A colon.
pub open spec fn is_colon() -> spec_fn(char) -> bool {
    |c: char| c == ':'
}

/// The text of the field that starts at index `from`, and the index behind it.
pub open spec fn field_at(t: Seq<char>, from: int) -> Option<(Seq<char>, int)> {
    match search::first_at(t, is_colon(), from) {
        Some(colon) => match number::parsed(t.subrange(from, colon), usize::MAX as nat) {
            Some(n) => if colon + 1 + n <= t.len() {
                Some((t.subrange(colon + 1, colon + 1 + n), colon + 1 + n))
            } else {
                None
            },
            None => None,
        },
        None => None,
    }
}

/// The project that the text of a field stands for, if it stands for one or for none.
pub open spec fn read_project(s: Seq<char>) -> Option<Option<Seq<char>>> {
    if s.len() == 0 {
        Some(None)
    } else if s[0] == '=' {
        Some(Some(s.skip(1)))
    } else {
        None
    }
}

/// The title whose fields start at index `from`, and the index behind them.
pub open spec fn record_at(t: Seq<char>, from: int) -> Option<(PendingView, int)> {
    match field_at(t, from) {
        Some((id, a)) => match field_at(t, a) {
            Some((title, b)) => match field_at(t, b) {
                Some((project, c)) => match (
                    number::parsed(id, u32::MAX as nat),
                    read_project(project),
                ) {
                    (Some(n), Some(project)) => Some(
                        (PendingView { pane_id: n as u32, title, project }, c),
                    ),
                    _ => None,
                },
                None => None,
            },
            None => None,
        },
        None => None,
    }
}

/// The titles whose fields start at index `from`, if there is nothing else up to the end.
pub open spec fn read_from(t: Seq<char>, from: int) -> Option<Seq<PendingView>>
    decreases t.len() - from,
{
    if from >= t.len() {
        Some(Seq::empty())
    } else {
        match record_at(t, from) {
            Some((e, next)) => if next > from {
                match read_from(t, next) {
                    Some(entries) => Some(seq![e] + entries),
                    None => None,
                }
            } else {
                None
            },
            None => None,
        }
    }
}

/// The titles that a file with the text `t` holds, if it is such a file.
pub open spec fn read(t: Seq<char>) -> Option<Seq<PendingView>> {
    read_from(t, 0)
}

/// The file that holds the titles of a session.
pub fn path(session: &str) -> (r: String)
    ensures
        r@ == path_of(session@),
{
    text::concat(text::concat("/tmp/zjstatus-", session).as_str(), ".state")
}

fn push_field(out: &mut String, s: &str)
    ensures
        final(out)@ == old(out)@ + field(s@),
{
    let chars = text::chars_of(s);
    let n: usize = chars.len();
    out.append(number::decimal(n as u128).as_str());
    out.push(':');
    out.append(s);
    assert(out@ =~= old(out)@ + field(s@));
}

fn push_record(out: &mut String, e: &PendingTitle)
    ensures
        final(out)@ == old(out)@ + record(e@),
{
    push_field(out, number::decimal(e.pane_id as u128).as_str());
    push_field(out, e.title.as_str());
    let mut project = String::new();
    if let Some(f) = &e.project {
        project.push('=');
        project.append(f.as_str());
    }
    assert(project@ =~= project_text(e@.project));
    push_field(out, project.as_str());
    assert(out@ =~= old(out)@ + record(e@));
}

/// Writes titles down.
pub fn write(entries: &Vec<PendingTitle>) -> (r: String)
    ensures
        r@ == written(model::pending_views(entries@)),
{
    let ghost all = model::pending_views(entries@);
    let mut out = String::new();
    let mut i: usize = 0;
    assert(all.skip(0) =~= all);
    assert(out@ + written(all) =~= written(all));
    while i < entries.len()
        invariant
            i <= entries@.len(),
            all == model::pending_views(entries@),
            out@ + written(all.skip(i as int)) == written(all),
        decreases entries@.len() - i,
    {
        let ghost before = out@;
        push_record(&mut out, &entries[i]);
        proof {
            assert(all.skip(i as int).drop_first() =~= all.skip(i + 1));
            assert(all.skip(i as int)[0] == entries@[i as int]@);
            assert(out@ + written(all.skip(i + 1)) =~= before + written(all.skip(i as int)));
        }
        i = i + 1;
    }
    assert(written(all.skip(i as int)) =~= Seq::empty());
    assert(out@ + Seq::<char>::empty() =~= out@);
    out
}

fn find_colon(t: &Vec<char>, from: usize) -> (r: Option<usize>)
    ensures
        match r {
            Some(i) => search::first_at(t@, is_colon(), from as int) == Some(i as int) && from <= i
                < t@.len(),
            None => search::first_at(t@, is_colon(), from as int) is None,
        },
{
    let mut i: usize = from;
    while i < t.len()
        invariant
            from <= i,
            search::first_at(t@, is_colon(), from as int) == search::first_at(
                t@,
                is_colon(),
                i as int,
            ),
        decreases t@.len() - i,
    {
        if t[i] == ':' {
            return Some(i);
        }
        i = i + 1;
    }
    None
}

fn read_field(t: &Vec<char>, from: usize) -> (r: Option<(String, usize)>)
    ensures
        match r {
            Some((s, next)) => field_at(t@, from as int) == Some((s@, next as int)) && from < next
                <= t@.len(),
            None => field_at(t@, from as int) is None,
        },
{
    match find_colon(t, from) {
        Some(colon) => {
            let digits = text::text_between(t, from, colon);
            match number::parse(digits.as_str(), usize::MAX as u64) {
                Some(n) => {
                    let n: usize = n as usize;
                    if n <= t.len() - (colon + 1) {
                        Some(
                            (
                                text::text_between(t, colon + 1, colon + 1 + n),
                                colon + 1 + n,
                            ),
                        )
                    } else {
                        None
                    }
                },
                None => None,
            }
        },
        None => None,
    }
}

fn parse_project(s: &str) -> (r: Option<Option<String>>)
    ensures
        match r {
            Some(project) => read_project(s@) == Some(text::opt(project)),
            None => read_project(s@) is None,
        },
{
    let chars = text::chars_of(s);
    if chars.len() == 0 {
        Some(None)
    } else if chars[0] == '=' {
        let f = text::text_between(&chars, 1, chars.len());
        assert(f@ =~= s@.skip(1));
        Some(Some(f))
    } else {
        None
    }
}

fn read_record(t: &Vec<char>, from: usize) -> (r: Option<(PendingTitle, usize)>)
    ensures
        match r {
            Some((e, next)) => record_at(t@, from as int) == Some((e@, next as int)) && from < next
                <= t@.len(),
            None => record_at(t@, from as int) is None,
        },
{
    let (id, a) = match read_field(t, from) {
        Some(f) => f,
        None => {
            return None;
        },
    };
    let (title, b) = match read_field(t, a) {
        Some(f) => f,
        None => {
            return None;
        },
    };
    let (project, c) = match read_field(t, b) {
        Some(f) => f,
        None => {
            return None;
        },
    };
    match (number::parse(id.as_str(), u32::MAX as u64), parse_project(project.as_str())) {
        (Some(n), Some(project)) => Some(
            (PendingTitle { pane_id: n as u32, title, project }, c),
        ),
        _ => None,
    }
}

/// Reads titles back. A text that was not written that way is refused.
pub fn parse(s: &str) -> (r: Option<Vec<PendingTitle>>)
    ensures
        match r {
            Some(entries) => read(s@) == Some(model::pending_views(entries@)),
            None => read(s@) is None,
        },
{
    let t = text::chars_of(s);
    let mut entries: Vec<PendingTitle> = Vec::new();
    let mut from: usize = 0;
    proof {
        lemma_resumed(model::pending_views(entries@), read_from(t@, 0));
    }
    while from < t.len()
        invariant
            from <= t@.len(),
            t@ == s@,
            read(s@) == resumed(model::pending_views(entries@), read_from(t@, from as int)),
        decreases t@.len() - from,
    {
        match read_record(&t, from) {
            Some((e, next)) => {
                let ghost before = model::pending_views(entries@);
                let ghost v = e@;
                entries.push(e);
                proof {
                    assert(model::pending_views(entries@) =~= before.push(v));
                    if let Some(rest) = read_from(t@, next as int) {
                        assert(before + (seq![v] + rest) =~= before.push(v) + rest);
                    }
                }
                from = next;
            },
            None => {
                return None;
            },
        }
    }
    assert(model::pending_views(entries@) + Seq::<PendingView>::empty() =~= model::pending_views(
        entries@,
    ));
    Some(entries)
}

spec fn resumed(before: Seq<PendingView>, rest: Option<Seq<PendingView>>) -> Option<
    Seq<PendingView>,
> {
    match rest {
        Some(entries) => Some(before + entries),
        None => None,
    }
}

proof fn lemma_resumed(before: Seq<PendingView>, rest: Option<Seq<PendingView>>)
    requires
        before.len() == 0,
    ensures
        resumed(before, rest) == rest,
{
    if let Some(entries) = rest {
        assert(before + entries =~= entries);
    }
}

/// A field is read back where it was written.
proof fn lemma_field(prefix: Seq<char>, s: Seq<char>, rest: Seq<char>)
    requires
        s.len() <= usize::MAX,
    ensures
        field_at(prefix + field(s) + rest, prefix.len() as int) == Some(
            (s, (prefix + field(s)).len() as int),
        ),
{
    let t = prefix + field(s) + rest;
    let from = prefix.len() as int;
    let digits = number::numeral(s.len());
    let colon = from + digits.len();
    number::lemma_numeral(s.len());
    number::law_numeral_reads_back(s.len(), usize::MAX as nat);
    assert(t[colon] == ':');
    assert forall|j: int| from <= j < colon implies !is_colon()(#[trigger] t[j]) by {
        assert(t[j] == digits[j - from]);
        assert(number::is_digit(digits[j - from]));
    }
    search::lemma_first_at(t, is_colon(), from);
    match search::first_at(t, is_colon(), from) {
        Some(i) => {
            if i < colon {
                assert(!is_colon()(t[i]));
            }
            if i > colon {
                assert(!is_colon()(t[colon]));
            }
        },
        None => {
            assert(!is_colon()(t[colon]));
        },
    }
    assert(t.subrange(from, colon) =~= digits);
    assert(t.subrange(colon + 1, colon + 1 + s.len()) =~= s);
}

proof fn lemma_record(prefix: Seq<char>, e: PendingView, rest: Seq<char>)
    requires
        e.title.len() <= usize::MAX,
        project_text(e.project).len() <= usize::MAX,
    ensures
        record_at(prefix + record(e) + rest, prefix.len() as int) == Some(
            (e, (prefix + record(e)).len() as int),
        ),
{
    let id = number::numeral(e.pane_id as nat);
    let project = project_text(e.project);
    let t = prefix + record(e) + rest;
    let a = prefix + field(id);
    let b = a + field(e.title);
    assert(field_at(t, prefix.len() as int) == Some((id, a.len() as int))) by {
        number::lemma_short_numeral(e.pane_id);
        lemma_field(prefix, id, field(e.title) + field(project) + rest);
        assert(t =~= prefix + field(id) + (field(e.title) + field(project) + rest));
    }
    assert(field_at(t, a.len() as int) == Some((e.title, b.len() as int))) by {
        lemma_field(a, e.title, field(project) + rest);
        assert(t =~= a + field(e.title) + (field(project) + rest));
    }
    assert(field_at(t, b.len() as int) == Some((project, (b + field(project)).len() as int))) by {
        lemma_field(b, project, rest);
        assert(t =~= b + field(project) + rest);
    }
    assert(number::parsed(id, u32::MAX as nat) == Some(e.pane_id as nat)) by {
        number::law_numeral_reads_back(e.pane_id as nat, u32::MAX as nat);
    }
    assert(read_project(project) == Some(e.project)) by {
        if let Some(f) = e.project {
            assert(project.skip(1) =~= f);
        }
    }
    assert((b + field(project)).len() == (prefix + record(e)).len());
}

proof fn lemma_written(prefix: Seq<char>, entries: Seq<PendingView>)
    requires
        forall|i: int|
            0 <= i < entries.len() ==> {
                &&& (#[trigger] entries[i]).title.len() <= usize::MAX
                &&& project_text(entries[i].project).len() <= usize::MAX
            },
    ensures
        read_from(prefix + written(entries), prefix.len() as int) == Some(entries),
    decreases entries.len(),
{
    let t = prefix + written(entries);
    if entries.len() > 0 {
        let e = entries[0];
        let rest = entries.drop_first();
        lemma_record(prefix, e, written(rest));
        assert(t =~= prefix + record(e) + written(rest));
        lemma_written(prefix + record(e), rest);
        assert(field(e.title).len() > 0);
        assert(seq![e] + rest =~= entries);
    }
}

/// Titles that were written down are read back as they were, as long as their texts fit into
/// memory.
pub proof fn law_written_titles_read_back(entries: Seq<PendingView>)
    requires
        forall|i: int|
            0 <= i < entries.len() ==> {
                &&& (#[trigger] entries[i]).title.len() <= usize::MAX
                &&& project_text(entries[i].project).len() <= usize::MAX
            },
    ensures
        read(written(entries)) == Some(entries),
{
    lemma_written(Seq::empty(), entries);
    assert(Seq::<char>::empty() + written(entries) =~= written(entries));
}

} // verus!

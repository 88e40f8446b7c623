//! What holds of single messages, said of what they hold and of what is stored.

use vstd::prelude::*;

use crate::event;
use crate::event::{ActionView, Delay, MessageView};
use crate::number;
use crate::plugin::laws;
use crate::plugin::messages;
use crate::plugin::model::{PendingView, PluginView};
use crate::plugin::pending;
use crate::state::{StateView, UpdateEventMask};
use crate::tab_name;
use crate::titles;

verus! {

/// The timer event that is asked for, if any is: 300 milliseconds ahead while a title spins, and
/// otherwise as many seconds ahead as the configuration says while commands are run for a bar in
/// the focused tab. None is asked for while one is on its way.
pub open spec fn timer_asked(p: PluginView, asked: Seq<ActionView>) -> bool {
    let polls = p.has_command_widgets && p.state.is_current_tab_plugin;
    &&& p.timer_active ==> asked.len() == 0
    &&& !p.timer_active && titles::spins(p.state.overrides) ==> asked == seq![
        ActionView::SetTimeout(Delay::Millis(300)),
    ]
    &&& !p.timer_active && !titles::spins(p.state.overrides) && polls ==> asked == seq![
        ActionView::SetTimeout(Delay::Seconds(p.poll_interval)),
    ]
    &&& !p.timer_active && !titles::spins(p.state.overrides) && !polls ==> asked.len() == 0
}

/// Whether the bar has to change by itself: a title spins, or commands are run for a bar in the
/// focused tab.
pub open spec fn is_moving(p: PluginView) -> bool {
    titles::spins(p.state.overrides) || (p.has_command_widgets && p.state.is_current_tab_plugin)
}

/// What is asked for so that the bar changes by itself when it has to.
pub proof fn law_timers(p: PluginView)
    ensures
        timer_asked(p, p.timeouts()),
        p.timed().timer_active == (p.timer_active || is_moving(p)),
        (PluginView { timer_active: p.timer_active, ..p.timed() }) == p,
{
}

/// Which session and which pane a message is meant for. One is meant for another session if it
/// names a session, the session of the bar is known, and the two differ. The pane is the one whose
/// number it gives, if that is a number that a pane can have.
pub proof fn law_addresses(m: MessageView, session: Option<Seq<char>>, id: u32)
    ensures
        messages::is_for_other(m, session) <==> m.args.contains_key("session"@) && session is Some
            && m.args["session"@] != session->0,
        messages::named_pane(m) == Some(id) <==> m.args.contains_key("pane_id"@) && number::parsed(
            m.args["pane_id"@],
            u32::MAX as nat,
        ) == Some(id as nat),
        messages::named_pane(m) is None <==> !m.args.contains_key("pane_id"@) || number::parsed(
            m.args["pane_id"@],
            u32::MAX as nat,
        ) is None,
{
}

/// A message that is neither about a title nor about the focus changes nothing in the bar, and what
/// it holds is handed on as it is.
pub proof fn law_other_messages_are_handed_on(p: PluginView, m: MessageView)
    requires
        m.name != "title"@,
        m.name != "focus"@,
    ensures
        p.piped(m).0 == p,
        !p.piped(m).1.render,
        m.payload is Some ==> p.piped(m).1.actions == seq![ActionView::Protocol(m.payload->0)],
        m.payload is None ==> p.piped(m).1.actions.len() == 0,
{
}

/// A message about a title that has no title in it changes nothing and asks for nothing. So does one
/// about the focus that names no pane.
pub proof fn law_incomplete_messages(p: PluginView, m: MessageView)
    requires
        (m.name == "title"@ && m.payload is None) || (m.name == "focus"@ && !m.args.contains_key(
            "pane_id"@,
        )),
    ensures
        p.piped(m) == (p, event::only(false)),
        !p.piped(m).1.render && p.piped(m).1.actions.len() == 0,
{
    reveal_strlit("title");
    reveal_strlit("focus");
    assert("title"@[0] != "focus"@[0]);
}

/// A title for a pane that is at a known tab is stored there, together with its project if one comes
/// with it, and nothing else is changed but that the bar is marked as out of date. The bar is drawn
/// again exactly where the title or the project is another one than before.
pub proof fn law_title_for_a_known_pane(
    p: PluginView,
    m: MessageView,
    id: u32,
    title: Seq<char>,
    position: usize,
)
    requires
        laws::is_title(p, m, id, title),
        title.len() > 0,
        titles::located(p.state.tabs, p.state.panes, id) == Some(position),
    ensures
        ({
            let (after, asked) = p.piped(m);
            let project = if m.args.contains_key("fallback"@) {
                Some(m.args["fallback"@])
            } else {
                None
            };
            let news = tab_name::text_of(p.state.overrides, position, id) != Some(title) || (project
                is Some && tab_name::text_of(p.state.fallbacks, position, id) != project);
            &&& forall|q: usize, other: u32| #[trigger]
                tab_name::text_of(after.state.overrides, q, other) == (if q == position && other
                    == id {
                    Some(title)
                } else {
                    tab_name::text_of(p.state.overrides, q, other)
                })
            &&& forall|q: usize, other: u32| #[trigger]
                tab_name::text_of(after.state.fallbacks, q, other) == (if q == position && other
                    == id && project is Some {
                    project
                } else {
                    tab_name::text_of(p.state.fallbacks, q, other)
                })
            &&& asked.render == news
            &&& after.state.cache_mask == (if news {
                Some(UpdateEventMask::Tab)
            } else {
                p.state.cache_mask
            })
            &&& after.timer_active == (p.timer_active || is_moving(after))
            &&& timer_asked(PluginView { timer_active: p.timer_active, ..after }, asked.actions)
            &&& after == (PluginView {
                timer_active: after.timer_active,
                state: StateView {
                    overrides: after.state.overrides,
                    fallbacks: after.state.fallbacks,
                    cache_mask: after.state.cache_mask,
                    ..p.state
                },
                ..p
            })
        }),
{
}

/// A title for a pane that is at no known tab waits behind the others, in the place of one of the
/// same pane. Nothing else is changed, and nothing is asked for.
pub proof fn law_title_for_an_unknown_pane(p: PluginView, m: MessageView, id: u32, title: Seq<char>)
    requires
        laws::is_title(p, m, id, title),
        title.len() > 0,
        titles::located(p.state.tabs, p.state.panes, id) is None,
    ensures
        ({
            let (after, asked) = p.piped(m);
            let project = if m.args.contains_key("fallback"@) {
                Some(m.args["fallback"@])
            } else {
                None
            };
            &&& after.pending.len() > 0
            &&& after.pending.last() == (PendingView { pane_id: id, title, project })
            &&& after.pending.drop_last() == p.pending.filter(|e: PendingView| e.pane_id != id)
            &&& after == (PluginView { pending: after.pending, ..p })
            &&& !asked.render && asked.actions.len() == 0
        }),
{
    let project = m.arg("fallback"@);
    let e = PendingView { pane_id: id, title, project };
    assert(pending::of_others(id) =~= (|e: PendingView| e.pane_id != id));
    let after = p.piped(m).0;
    assert(after.pending =~= p.pending.filter(pending::of_others(id)).push(e));
    assert(after.pending.drop_last() =~= p.pending.filter(pending::of_others(id)));
}

/// An empty title has the bar drawn again, and beside the titles, the projects and what waits for
/// panes changes nothing but that the bar is marked as out of date.
pub proof fn law_empty_title_leaves_the_rest(p: PluginView, m: MessageView, id: u32)
    requires
        laws::is_title(p, m, id, Seq::empty()),
    ensures
        ({
            let (after, asked) = p.piped(m);
            let known = titles::located(p.state.tabs, p.state.panes, id) is Some;
            &&& after == (PluginView {
                pending: after.pending,
                strays: after.strays,
                state: StateView {
                    overrides: after.state.overrides,
                    fallbacks: after.state.fallbacks,
                    cache_mask: Some(UpdateEventMask::Tab),
                    ..p.state
                },
                ..p
            })
            &&& known ==> after.pending == p.pending && after.strays == p.strays
            &&& !known ==> after.pending == p.pending.filter(|e: PendingView| e.pane_id != id)
                && after.strays == p.strays.filter(|e: PendingView| e.pane_id != id)
            &&& asked.render && asked.actions.len() == 0
        }),
{
    assert(pending::of_others(id) =~= (|e: PendingView| e.pane_id != id));
}

/// What the message holds that gives a title to the other instances: the title, the number of its
/// pane, the name of the session, and the project of the pane unless it is empty. That project is
/// the one at the first of the positions that have one.
pub proof fn law_title_messages(
    s: StateView,
    session: Seq<char>,
    position: usize,
    id: u32,
    first: usize,
)
    requires
        tab_name::text_of(s.overrides, position, id) is Some,
        forall|q: usize| #[trigger] tab_name::text_of(s.fallbacks, q, id) is Some ==> first <= q,
    ensures
        ({
            let m = s.message_at(session, (position, id));
            let project = tab_name::text_of(s.fallbacks, first, id);
            &&& m.name == "title"@
            &&& m.payload == tab_name::text_of(s.overrides, position, id)
            &&& m.args.contains_key("pane_id"@)
            &&& m.args["pane_id"@] == number::numeral(id as nat)
            &&& m.args.contains_key("session"@)
            &&& m.args["session"@] == session
            &&& forall|key: Seq<char>| #[trigger]
                m.args.contains_key(key) ==> key == "pane_id"@ || key == "session"@ || key
                    == "fallback"@
            &&& project is Some && project->0.len() > 0 ==> m.args.contains_key("fallback"@)
                && m.args["fallback"@] == project->0
            &&& project is Some && project->0.len() == 0 ==> !m.args.contains_key("fallback"@)
            &&& !titles::has_text(s.fallbacks, id) ==> !m.args.contains_key("fallback"@)
        }),
{
    reveal_strlit("pane_id");
    reveal_strlit("session");
    reveal_strlit("fallback");
    assert("pane_id"@[0] != "session"@[0]);
    assert("pane_id"@[0] != "fallback"@[0]);
    assert("session"@[0] != "fallback"@[0]);
    if tab_name::text_of(s.fallbacks, first, id) is Some {
        reveal(titles::first_position);
        assert(titles::first_position(s.fallbacks, id) == first) by {
            let p = titles::first_position(s.fallbacks, id);
            assert(tab_name::text_of(s.fallbacks, p, id) is Some);
            assert(p <= first);
        }
    }
}

} // verus!

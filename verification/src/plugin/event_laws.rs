//! What holds of single events, said of what they hold and of what is stored.

use vstd::prelude::*;

use crate::data::{InputMode, Mouse, PaneView, TabView};
use crate::event::{ActionView, Delay, EventView};
use crate::plugin::events;
use crate::plugin::laws;
use crate::plugin::message_laws;
use crate::plugin::model::{PendingView, PluginView};
use crate::plugin::pending;
use crate::search;
use crate::state::{StateView, UpdateEventMask};
use crate::tab_name;
use crate::titles;
use crate::window;

verus! {

/// Whether the pane at index `j` of the list for `position` is the plugin `id`.
pub open spec fn plugin_at(
    panes: Map<usize, Seq<PaneView>>,
    position: usize,
    j: int,
    id: u32,
) -> bool {
    &&& panes.contains_key(position)
    &&& 0 <= j < panes[position].len()
    &&& panes[position][j].id == id
    &&& panes[position][j].is_plugin
}

/// A plugin is in the focused tab exactly where the list of panes of the first focused tab holds a
/// plugin with its number.
pub proof fn law_focused_plugin(
    tabs: Seq<TabView>,
    panes: Map<usize, Seq<PaneView>>,
    plugin_id: u32,
)
    ensures
        events::is_current(tabs, panes, plugin_id) <==> exists|i: int, j: int|
            {
                &&& 0 <= i < tabs.len()
                &&& tabs[i].active
                &&& forall|k: int| 0 <= k < i ==> !(#[trigger] tabs[k]).active
                &&& #[trigger] plugin_at(panes, tabs[i].position, j, plugin_id)
            },
{
    search::lemma_first_at(tabs, window::focused(), 0);
    match search::first_at(tabs, window::focused(), 0) {
        Some(i) => {
            assert forall|k: int| 0 <= k < i implies !(#[trigger] tabs[k]).active by {
                assert(!window::focused()(tabs[k]));
            }
            let position = tabs[i].position;
            assert(tabs[i].active);
            assert forall|n: int|
                0 <= n < tabs.len() && (#[trigger] tabs[n]).active && (forall|k: int|
                    0 <= k < n ==> !(#[trigger] tabs[k]).active) implies n == i by {}
            if panes.contains_key(position) {
                let all = panes[position];
                let p = events::plugin_pane(plugin_id);
                search::lemma_first_at(all, p, 0);
                match search::first_at(all, p, 0) {
                    Some(j) => {
                        assert(plugin_at(panes, tabs[i].position, j, plugin_id));
                    },
                    None => {
                        assert forall|j: int| !plugin_at(panes, position, j, plugin_id) by {
                            if plugin_at(panes, position, j, plugin_id) {
                                assert(p(all[j]));
                            }
                        }
                    },
                }
            }
        },
        None => {
            assert forall|k: int| 0 <= k < tabs.len() implies !(#[trigger] tabs[k]).active by {
                assert(!window::focused()(tabs[k]));
            }
        },
    }
}

/// What the mouse did is left to the widgets, but only by the bar in the focused tab.
pub proof fn law_mouse(p: PluginView, mouse: Mouse, plugin_id: u32)
    ensures
        ({
            let (after, asked) = p.handled(EventView::Mouse(mouse), plugin_id);
            &&& after == p
            &&& !asked.render
            &&& p.state.is_current_tab_plugin ==> asked.actions == seq![
                ActionView::HandleMouse(mouse),
            ]
            &&& !p.state.is_current_tab_plugin ==> asked.actions.len() == 0
        }),
{
}

/// The mode and the name of the session are taken over, and the bar is drawn again.
pub proof fn law_mode(p: PluginView, mode: InputMode, session: Option<Seq<char>>, plugin_id: u32)
    ensures
        ({
            let (after, asked) = p.handled(EventView::ModeUpdate(mode, session), plugin_id);
            &&& after.state.mode == mode
            &&& after.state.session == session
            &&& after.state.cache_mask == Some(UpdateEventMask::Mode)
            &&& asked.render && asked.actions.len() == 0
            &&& after == (PluginView {
                state: StateView {
                    mode: after.state.mode,
                    session: after.state.session,
                    cache_mask: after.state.cache_mask,
                    ..p.state
                },
                ..p
            })
        }),
{
}

/// Once the user decided on the permissions, the focus is kept off the bar. That sessions change, and
/// what the bar does not know, is of no concern to it.
pub proof fn law_events_without_effect(p: PluginView, granted: bool, plugin_id: u32)
    ensures
        ({
            let (after, asked) = p.handled(EventView::PermissionRequestResult(granted), plugin_id);
            &&& after == p
            &&& !asked.render
            &&& asked.actions == seq![ActionView::SetSelectable(false)]
        }),
        ({
            let (after, asked) = p.handled(EventView::SessionUpdate, plugin_id);
            after == p && !asked.render && asked.actions.len() == 0
        }),
        ({
            let (after, asked) = p.handled(EventView::Other, plugin_id);
            after == p && !asked.render && asked.actions.len() == 0
        }),
{
}

/// What a command left is stored under the name that the command was started with, in the place of
/// what was stored there, and is drawn by the bar in the focused tab. A command without a name
/// leaves nothing. What it wrote is taken as UTF-8, and as nothing where it is not.
pub proof fn law_commands(
    p: PluginView,
    exit_code: Option<i32>,
    stdout: Seq<u8>,
    stderr: Seq<u8>,
    context: Map<Seq<char>, Seq<char>>,
    plugin_id: u32,
)
    ensures
        ({
            let (after, asked) = p.handled(
                EventView::RunCommandResult(exit_code, stdout, stderr, context),
                plugin_id,
            );
            let name = context["name"@];
            let result = after.state.command_results[name];
            &&& after.state.cache_mask == Some(UpdateEventMask::Command)
            &&& asked.actions.len() == 0
            &&& context.contains_key("name"@) ==> {
                &&& asked.render == p.state.is_current_tab_plugin
                &&& after.state.command_results.dom() == p.state.command_results.dom().insert(name)
                &&& after.state.command_results.remove(name) == p.state.command_results.remove(name)
                &&& result.exit_code == exit_code
                &&& result.context == context
                &&& vstd::utf8::valid_utf8(stdout) ==> result.stdout == vstd::utf8::decode_utf8(
                    stdout,
                )
                &&& !vstd::utf8::valid_utf8(stdout) ==> result.stdout.len() == 0
                &&& vstd::utf8::valid_utf8(stderr) ==> result.stderr == vstd::utf8::decode_utf8(
                    stderr,
                )
                &&& !vstd::utf8::valid_utf8(stderr) ==> result.stderr.len() == 0
            }
            &&& !context.contains_key("name"@) ==> {
                &&& !asked.render
                &&& after.state.command_results == p.state.command_results
            }
            &&& after == (PluginView {
                state: StateView {
                    command_results: after.state.command_results,
                    cache_mask: after.state.cache_mask,
                    ..p.state
                },
                ..p
            })
        }),
{
    let (after, asked) = p.handled(
        EventView::RunCommandResult(exit_code, stdout, stderr, context),
        plugin_id,
    );
    let name = context["name"@];
    if context.contains_key("name"@) {
        assert(after.state.command_results.dom() =~= p.state.command_results.dom().insert(name));
        assert(after.state.command_results.remove(name) =~= p.state.command_results.remove(name));
    }
}

/// When the time is over, spinners turn, or else commands are due, and in both cases the bar is
/// drawn again and asks for the next timer event. If nothing changes by itself, no timer event is
/// on its way any more.
pub proof fn law_timer(p: PluginView, plugin_id: u32)
    ensures
        ({
            let (after, asked) = p.handled(EventView::Timer, plugin_id);
            let spins = titles::spins(p.state.overrides);
            let polls = p.has_command_widgets && p.state.is_current_tab_plugin;
            &&& asked.render == (spins || polls)
            &&& spins ==> asked.actions == seq![ActionView::SetTimeout(Delay::Millis(300))]
            &&& spins ==> after.state.cache_mask == Some(UpdateEventMask::Tab)
            &&& spins && p.state.spinner_idx < usize::MAX ==> after.state.spinner_idx
                == p.state.spinner_idx + 1
            &&& spins && p.state.spinner_idx == usize::MAX ==> after.state.spinner_idx == 0
            &&& !spins ==> after.state.spinner_idx == p.state.spinner_idx
            &&& !spins && polls ==> asked.actions == seq![
                ActionView::SetTimeout(Delay::Seconds(p.poll_interval)),
            ]
            &&& !spins && polls ==> after.state.cache_mask == Some(UpdateEventMask::Command)
            &&& !spins && !polls ==> asked.actions.len() == 0 && after.state.cache_mask
                == p.state.cache_mask
            &&& after.timer_active == (p.timer_active && (spins || polls))
            &&& after == (PluginView {
                timer_active: after.timer_active,
                state: StateView {
                    spinner_idx: after.state.spinner_idx,
                    cache_mask: after.state.cache_mask,
                    ..p.state
                },
                ..p
            })
        }),
{
}

/// What other tabs or other panes change: where titles stand, which of them wait or are astray,
/// whether the bar is in the focused tab, and that it is out of date and may need a timer event.
pub open spec fn is_arranged(before: PluginView, after: PluginView, plugin_id: u32) -> bool {
    let tabs = after.state.tabs;
    let panes = after.state.panes;
    &&& after.state.is_current_tab_plugin == events::is_current(tabs, panes, plugin_id)
    &&& after.state.cache_mask == Some(UpdateEventMask::Tab)
    &&& after.timer_active == (before.timer_active || message_laws::is_moving(after))
    &&& after.pending == before.pending.filter(
        |e: PendingView| titles::located(tabs, panes, e.pane_id) is None,
    )
    &&& after == (PluginView {
        timer_active: after.timer_active,
        pending: after.pending,
        strays: after.strays,
        last_tab_count: after.last_tab_count,
        state: StateView {
            tabs,
            panes,
            is_current_tab_plugin: after.state.is_current_tab_plugin,
            cache_mask: after.state.cache_mask,
            overrides: after.state.overrides,
            fallbacks: after.state.fallbacks,
            ..before.state
        },
        ..before
    })
}

proof fn lemma_arranged(q: PluginView, plugin_id: u32, actions: Seq<ActionView>)
    ensures
        ({
            let (after, asked) = q.arranged(plugin_id, actions);
            &&& is_arranged(q, after, plugin_id)
            &&& after.state.tabs == q.state.tabs
            &&& after.state.panes == q.state.panes
            &&& after.last_tab_count == q.last_tab_count
            &&& asked.render
            &&& asked.actions.len() >= actions.len()
            &&& asked.actions.take(actions.len() as int) == actions
            &&& message_laws::timer_asked(
                PluginView { timer_active: q.timer_active, ..after },
                asked.actions.skip(actions.len() as int),
            )
        }),
{
    let moved = q.relocated();
    let fresh = PluginView { state: moved.state.refreshed(plugin_id), ..moved }.stale(
        UpdateEventMask::Tab,
    );
    pending::lemma_settled(fresh.state, fresh.strays);
    let given = fresh.returned();
    pending::lemma_settled(given.state, given.pending);
    let next = given.resolved();
    let (after, asked) = q.arranged(plugin_id, actions);
    assert(pending::unplaced(q.state.tabs, q.state.panes) =~= (|e: PendingView|
        titles::located(q.state.tabs, q.state.panes, e.pane_id) is None));
    assert(asked.actions.take(actions.len() as int) =~= actions);
    assert(asked.actions.skip(actions.len() as int) =~= next.timeouts());
    assert((PluginView { timer_active: q.timer_active, ..after }) == next);
}

/// Panes that are as they were change nothing. Other panes are taken over, and the bar is drawn
/// again and has the frames of the panes brought in line.
pub proof fn law_panes(p: PluginView, panes: Map<usize, Seq<PaneView>>, plugin_id: u32)
    ensures
        ({
            let (after, asked) = p.handled(EventView::PaneUpdate(panes), plugin_id);
            &&& p.state.panes == panes ==> after == p && !asked.render && asked.actions.len() == 0
            &&& p.state.panes != panes ==> {
                &&& is_arranged(p, after, plugin_id)
                &&& after.state.panes == panes
                &&& after.state.tabs == p.state.tabs
                &&& after.last_tab_count == p.last_tab_count
                &&& asked.render
                &&& asked.actions.len() >= 1 && asked.actions[0] == ActionView::HideFrames
                &&& message_laws::timer_asked(
                    PluginView { timer_active: p.timer_active, ..after },
                    asked.actions.skip(1),
                )
            }
        }),
{
    let q = PluginView { state: StateView { panes, ..p.state }, ..p };
    let frames = seq![ActionView::HideFrames];
    lemma_arranged(q, plugin_id, frames);
    if p.state.panes != panes {
        let asked = p.handled(EventView::PaneUpdate(panes), plugin_id).1;
        assert(asked.actions.take(1)[0] == frames[0]);
        assert(asked.actions.take(1)[0] == asked.actions[0]);
    }
}

/// Tabs that are as they were change nothing. Other tabs are taken over, and the bar is drawn again.
/// Where there are more tabs than before, the bar that was in the focused tab gives all titles that
/// it had to the other instances. It does not where no tab was known before: then it is new itself.
pub proof fn law_tabs(p: PluginView, tabs: Seq<TabView>, plugin_id: u32)
    requires
        tabs.len() <= usize::MAX,
    ensures
        ({
            let (after, asked) = p.handled(EventView::TabUpdate(tabs), plugin_id);
            let told = if tabs.len() > p.last_tab_count && p.last_tab_count != 0
                && p.state.is_current_tab_plugin {
                p.state.broadcast()
            } else {
                Seq::empty()
            };
            &&& p.state.tabs == tabs ==> after == p && !asked.render && asked.actions.len() == 0
            &&& p.state.tabs != tabs ==> {
                &&& is_arranged(p, after, plugin_id)
                &&& after.state.tabs == tabs
                &&& after.state.panes == p.state.panes
                &&& after.last_tab_count == tabs.len()
                &&& asked.render
                &&& asked.actions.len() >= told.len()
                &&& asked.actions.take(told.len() as int) == told
                &&& message_laws::timer_asked(
                    PluginView { timer_active: p.timer_active, ..after },
                    asked.actions.skip(told.len() as int),
                )
            }
        }),
{
    let q = PluginView {
        state: StateView { tabs, ..p.state },
        last_tab_count: tabs.len() as usize,
        ..p
    };
    lemma_arranged(q, plugin_id, p.announced(tabs));
}

/// A title that waited for its pane stands at the tab of the pane as soon as other tabs or other
/// panes show where that is, and its project with it if one came with it.
pub proof fn law_waiting_titles_are_given_in_time(
    p: PluginView,
    ev: EventView,
    plugin_id: u32,
    e: PendingView,
    position: usize,
)
    requires
        ev is TabUpdate || ev is PaneUpdate,
        p.sound(),
        p.pending.contains(e),
        e.title.len() > 0,
        ({
            let after = p.handled(ev, plugin_id).0.state;
            titles::located(after.tabs, after.panes, e.pane_id) == Some(position)
        }),
    ensures
        ({
            let after = p.handled(ev, plugin_id).0.state;
            &&& tab_name::text_of(after.overrides, position, e.pane_id) == Some(e.title)
            &&& e.project is Some ==> tab_name::text_of(after.fallbacks, position, e.pane_id)
                == e.project
        }),
{
    let i = p.pending.index_of(e);
    assert(p.pending[i] == e);
    assert(p.tab_of(e.pane_id) is None);
    let (q, actions) = match ev {
        EventView::TabUpdate(tabs) => (
            PluginView {
                state: StateView { tabs, ..p.state },
                last_tab_count: tabs.len() as usize,
                ..p
            },
            p.announced(tabs),
        ),
        EventView::PaneUpdate(panes) => (
            PluginView { state: StateView { panes, ..p.state }, ..p },
            seq![ActionView::HideFrames],
        ),
        _ => (p, Seq::empty()),
    };
    lemma_arranged(q, plugin_id, actions);
    let moved = q.relocated();
    let fresh = PluginView { state: moved.state.refreshed(plugin_id), ..moved }.stale(
        UpdateEventMask::Tab,
    );
    pending::lemma_settled(fresh.state, fresh.strays);
    let given = fresh.returned();
    laws::law_waiting_title_is_given(given, e, position);
}

} // verus!

//! What holds of the start of the plugin, of events that wait, and of what is drawn.

use vstd::prelude::*;

use crate::data::InputMode;
use crate::event::EventView;
use crate::number;
use crate::plugin::life;
use crate::plugin::life::DrawingView;
use crate::plugin::model::PluginView;
use crate::state;
use crate::state::StateView;

verus! {

/// Before anything is known there are no tabs, panes, titles and results, the mode is the normal
/// one, and the session has no name.
pub proof fn law_blank_state(uuid: Seq<char>)
    ensures
        ({
            let s = state::blank(uuid);
            &&& s.plugin_uuid == uuid
            &&& s.tabs.len() == 0
            &&& s.panes.dom() == Set::<usize>::empty()
            &&& s.overrides.dom() == Set::<usize>::empty()
            &&& s.fallbacks.dom() == Set::<usize>::empty()
            &&& s.command_results.dom() == Set::<Seq<char>>::empty()
            &&& s.mode == InputMode::Normal
            &&& s.session is None
            &&& s.cache_mask is None
            &&& s.cols == 0
            &&& s.spinner_idx == 0
            &&& !s.is_current_tab_plugin
        }),
        ({
            let p = life::unloaded();
            &&& p.state == state::blank(Seq::empty())
            &&& p.pending_events.len() == 0
            &&& p.pending.len() == 0
            &&& p.strays.len() == 0
            &&& p.configuration.dom() == Set::<Seq<char>>::empty()
            &&& p.err is None
            &&& !p.got_permissions && !p.timer_active && !p.has_command_widgets
            &&& p.poll_interval == 0
            &&& p.last_tab_count == 0
        }),
{
    let s = state::blank(uuid);
    assert(s.panes.dom() =~= Set::<usize>::empty());
    assert(s.overrides.dom() =~= Set::<usize>::empty());
    assert(s.command_results.dom() =~= Set::<Seq<char>>::empty());
    assert(life::unloaded().configuration.dom() =~= Set::<Seq<char>>::empty());
}

/// An event waits, behind those that wait already, until the permissions are granted. Then those
/// that waited are due, the last one first, and the event itself comes last. From then on every
/// event is due at once.
pub proof fn law_events_wait_for_permissions(p: PluginView, ev: EventView)
    ensures
        ({
            let (after, due) = p.updated(ev);
            let waiting = p.pending_events;
            let grants = ev == EventView::PermissionRequestResult(true);
            &&& grants ==> {
                &&& after == (PluginView {
                    got_permissions: true,
                    pending_events: after.pending_events,
                    ..p
                })
                &&& after.pending_events.len() == 0
                &&& due.len() == waiting.len() + 1
                &&& due.last() == ev
                &&& forall|k: int|
                    0 <= k < waiting.len() ==> #[trigger] due[k] == waiting[waiting.len() - 1 - k]
            }
            &&& !grants && p.got_permissions ==> after == p && due == seq![ev]
            &&& !grants && !p.got_permissions ==> {
                &&& after == (PluginView { pending_events: after.pending_events, ..p })
                &&& after.pending_events == waiting + seq![ev]
                &&& due.len() == 0
            }
        }),
{
    assert(p.pending_events.push(ev) =~= p.pending_events + seq![ev]);
}

/// Events are handled one after another: first those of `first`, then those of `second`, with what
/// both ask for in this order, and a single one as it is handled alone. The last one says whether the
/// bar is drawn again.
pub proof fn law_events_one_after_another(
    p: PluginView,
    first: Seq<EventView>,
    second: Seq<EventView>,
    plugin_id: u32,
)
    ensures
        ({
            let (mid, asked) = p.ran_through(first, plugin_id);
            let (end, more) = mid.ran_through(second, plugin_id);
            let (after, all) = p.ran_through(first + second, plugin_id);
            &&& after == end
            &&& all.actions == asked.actions + more.actions
            &&& second.len() > 0 ==> all.render == more.render
        }),
        first.len() == 0 ==> p.ran_through(first, plugin_id).0 == p && !p.ran_through(
            first,
            plugin_id,
        ).1.render && p.ran_through(first, plugin_id).1.actions.len() == 0,
        first.len() == 1 ==> p.ran_through(first, plugin_id) == p.handled(first[0], plugin_id),
    decreases second.len(),
{
    let (mid, asked) = p.ran_through(first, plugin_id);
    if second.len() == 0 {
        assert(first + second =~= first);
        assert(asked.actions + mid.ran_through(second, plugin_id).1.actions =~= asked.actions);
    } else {
        law_events_one_after_another(p, first, second.drop_last(), plugin_id);
        assert((first + second).drop_last() =~= first + second.drop_last());
        assert((first + second).last() == second.last());
        let (end, more) = mid.ran_through(second, plugin_id);
        let all = p.ran_through(first + second, plugin_id).1;
        assert(all.actions =~= asked.actions + more.actions);
    }
    if first.len() == 1 {
        assert(p.ran_through(first.drop_last(), plugin_id).0 == p);
        let last = p.handled(first[0], plugin_id).1;
        assert(p.ran_through(first, plugin_id).1.actions =~= last.actions);
    }
}

/// What reaches the bar is handled at once if the permissions are granted, and has no effect but that
/// it waits if they are not. The grant itself has all that waited handled, and itself at the end.
pub proof fn law_what_reaches_the_bar(p: PluginView, ev: EventView, plugin_id: u32)
    ensures
        ({
            let (after, asked) = p.received(ev, plugin_id);
            let grants = ev == EventView::PermissionRequestResult(true);
            &&& !grants && p.got_permissions ==> p.received(ev, plugin_id) == p.handled(
                ev,
                plugin_id,
            )
            &&& !grants && !p.got_permissions ==> {
                &&& after == (PluginView { pending_events: p.pending_events + seq![ev], ..p })
                &&& !asked.render && asked.actions.len() == 0
            }
            &&& grants ==> {
                let granted = PluginView {
                    got_permissions: true,
                    pending_events: Seq::empty(),
                    ..p
                };
                let (then, before) = granted.ran_through(p.pending_events.reverse(), plugin_id);
                &&& after == then.handled(ev, plugin_id).0
                &&& asked.render == then.handled(ev, plugin_id).1.render
                &&& asked.actions == before.actions + then.handled(ev, plugin_id).1.actions
            }
        }),
{
    law_events_one_after_another(p, seq![ev], Seq::empty(), plugin_id);
    assert(p.pending_events.push(ev) =~= p.pending_events + seq![ev]);
    let granted = PluginView { got_permissions: true, pending_events: Seq::empty(), ..p };
    let waited = p.pending_events.reverse();
    let then = granted.ran_through(waited, plugin_id).0;
    law_events_one_after_another(granted, waited, seq![ev], plugin_id);
    law_events_one_after_another(then, seq![ev], Seq::empty(), plugin_id);
    assert(waited.push(ev) =~= waited + seq![ev]);
}

/// Nothing is drawn without permissions. A bar with a wrong configuration says what is wrong with
/// it. Any other one is drawn in the columns that it is given, and keeps their number.
pub proof fn law_drawing(p: PluginView, cols: usize)
    ensures
        ({
            let (after, what) = p.drawn(cols);
            &&& !p.got_permissions ==> after == p && what == DrawingView::Nothing
            &&& p.got_permissions && p.err is Some ==> after == p && what == DrawingView::Error(
                "Error: "@ + p.err->0,
            )
            &&& p.got_permissions && p.err is None ==> {
                &&& what == DrawingView::Bar
                &&& after.state.cols == cols
                &&& after == (PluginView {
                    state: StateView { cols: after.state.cols, ..p.state },
                    ..p
                })
            }
        }),
{
}

/// Which settings are about commands: those that begin with `command_` and end in `_command` give a
/// widget a command, and those that begin like that and end in `_interval` say how often it runs.
pub proof fn law_command_settings(key: Seq<char>, name: Seq<char>)
    ensures
        life::is_command("command_"@ + name + "_command"@),
        life::is_interval("command_"@ + name + "_interval"@),
        life::is_command(key) <==> key.len() >= 8 && key.take(8) == "command_"@ && key.skip(
            key.len() - 8,
        ) == "_command"@,
        life::is_interval(key) <==> key.len() >= 9 && key.take(8) == "command_"@ && key.skip(
            key.len() - 9,
        ) == "_interval"@,
{
    reveal_strlit("command_");
    reveal_strlit("_command");
    reveal_strlit("_interval");
    let a = "command_"@ + name + "_command"@;
    assert(a.take(8) =~= "command_"@);
    assert(a.skip(a.len() - 8) =~= "_command"@);
    let b = "command_"@ + name + "_interval"@;
    assert(b.take(8) =~= "command_"@);
    assert(b.skip(b.len() - 9) =~= "_interval"@);
}

/// Commands are run at the shortest of the intervals that are set, and every second where none is.
/// An interval of no seconds is none.
pub proof fn law_poll_interval(config: Map<Seq<char>, Seq<char>>, secs: u64, key: Seq<char>, n: nat)
    requires
        life::is_poll_interval(config, secs),
    ensures
        secs > 0,
        config.contains_key(key) && life::is_interval(key) && number::parsed(
            config[key],
            i64::MAX as nat,
        ) == Some(n) && n > 0 ==> secs <= n,
        secs != 1 ==> exists|other: Seq<char>| #[trigger]
            config.contains_key(other) && life::is_interval(other) && number::parsed(
                config[other],
                i64::MAX as nat,
            ) == Some(secs as nat),
        life::has_commands(config) <==> exists|other: Seq<char>| #[trigger]
            config.contains_key(other) && life::is_command(other),
{
    if life::is_shortest(config, secs as nat) {
        let other = choose|other: Seq<char>| #[trigger]
            life::asks_for(config, other, secs as nat);
        assert(config.contains_key(other));
    }
    if config.contains_key(key) && life::is_interval(key) && number::parsed(
        config[key],
        i64::MAX as nat,
    ) == Some(n) && n > 0 {
        assert(life::asks_for(config, key, n));
    }
}

} // verus!

//! What the plugin makes of events.

use vstd::prelude::*;

use crate::data;
use crate::data::{PaneView, TabView};
use crate::event;
use crate::event::{Action, ActionView, Delay, Event, EventView, Outcome, OutcomeView};
use crate::plugin::model::{PluginView, State};
use crate::search;
use crate::state::{CommandResult, CommandView, StateView, UpdateEventMask};
use crate::tab_name;
use crate::text_map;
use crate::text_map::TextMap;
use crate::titles;
use crate::window;

verus! {

/// The plugin with the number `id`.
pub open spec fn plugin_pane(id: u32) -> spec_fn(PaneView) -> bool {
    |p: PaneView| p.is_plugin && p.id == id
}

/// Whether the plugin `plugin_id` is in the focused tab.
pub open spec fn is_current(
    tabs: Seq<TabView>,
    panes: Map<usize, Seq<PaneView>>,
    plugin_id: u32,
) -> bool {
    match search::first(tabs, window::focused()) {
        Some(tab) => panes.contains_key(tab.position) && search::first(
            panes[tab.position],
            plugin_pane(plugin_id),
        ) is Some,
        None => false,
    }
}

/// What was written as UTF-8, or nothing where it was not.
pub open spec fn decoded(bytes: Seq<u8>) -> Seq<char> {
    if vstd::utf8::valid_utf8(bytes) {
        vstd::utf8::decode_utf8(bytes)
    } else {
        Seq::empty()
    }
}

impl StateView {
    /// The state with every title at the tab that holds its pane.
    pub open spec fn rebuilt(self) -> StateView {
        StateView {
            overrides: titles::moved(self.overrides, self.tabs, self.panes),
            fallbacks: titles::moved(self.fallbacks, self.tabs, self.panes),
            ..self
        }
    }

    /// The state, with what is said about the plugin `plugin_id` brought up to date.
    pub open spec fn refreshed(self, plugin_id: u32) -> StateView {
        StateView {
            is_current_tab_plugin: is_current(self.tabs, self.panes, plugin_id),
            ..self
        }
    }
}

impl PluginView {
    /// The plugin with every title at the tab that holds its pane. A title is set aside whose pane
    /// a list of panes holds, but at no known tab: the tabs and the lists of panes come one after
    /// the other. A title whose pane no list holds is given up.
    pub open spec fn relocated(self) -> PluginView {
        PluginView { state: self.state.rebuilt(), ..self.kept() }
    }

    /// The plugin with other tabs or panes, once everything that hangs on them is up to date, and
    /// what it asks for after `actions`.
    pub open spec fn arranged(self, plugin_id: u32, actions: Seq<ActionView>) -> (
        PluginView,
        OutcomeView,
    ) {
        let moved = self.relocated();
        let next = PluginView {
            state: moved.state.refreshed(plugin_id),
            ..moved
        }.stale(UpdateEventMask::Tab).returned().resolved();
        (next.timed(), OutcomeView { render: true, actions: actions + next.timeouts() })
    }

    /// The plugin with what a command left behind. Only a command that has a name leaves something.
    pub open spec fn ran(self, name: Option<Seq<char>>, result: CommandView) -> (
        PluginView,
        OutcomeView,
    ) {
        match name {
            Some(name) => (
                PluginView {
                    state: StateView {
                        command_results: self.state.command_results.insert(name, result),
                        ..self.state
                    },
                    ..self
                }.stale(UpdateEventMask::Command),
                event::only(self.state.is_current_tab_plugin),
            ),
            None => (self.stale(UpdateEventMask::Command), event::only(false)),
        }
    }

    /// The plugin after the time that it asked for, and what it asks for then: the spinners turn,
    /// or the commands are due, or nothing changes by itself any more.
    pub open spec fn ticked(self) -> (PluginView, OutcomeView) {
        if titles::spins(self.state.overrides) {
            (
                PluginView {
                    state: StateView {
                        spinner_idx: tab_name::next_turn(self.state.spinner_idx),
                        ..self.state
                    },
                    ..self
                }.stale(UpdateEventMask::Tab),
                OutcomeView {
                    render: true,
                    actions: seq![ActionView::SetTimeout(Delay::Millis(300))],
                },
            )
        } else if self.polls() {
            (
                self.stale(UpdateEventMask::Command),
                OutcomeView {
                    render: true,
                    actions: seq![ActionView::SetTimeout(Delay::Seconds(self.poll_interval))],
                },
            )
        } else {
            (PluginView { timer_active: false, ..self }, event::only(false))
        }
    }

    /// The messages that the tabs `tabs` call for: where there are more of them than before, there
    /// is a new instance that knows no titles, and the instance in the focused tab tells it.
    pub open spec fn announced(self, tabs: Seq<TabView>) -> Seq<ActionView> {
        if tabs.len() > self.last_tab_count && self.last_tab_count > 0
            && self.state.is_current_tab_plugin {
            self.state.broadcast()
        } else {
            Seq::empty()
        }
    }

    /// The plugin after an event, and what it asks for.
    pub open spec fn handled(self, ev: EventView, plugin_id: u32) -> (PluginView, OutcomeView) {
        match ev {
            EventView::Mouse(mouse) => (
                self,
                OutcomeView {
                    render: false,
                    actions: if self.state.is_current_tab_plugin {
                        seq![ActionView::HandleMouse(mouse)]
                    } else {
                        Seq::empty()
                    },
                },
            ),
            EventView::ModeUpdate(mode, session) => (
                PluginView {
                    state: StateView { mode, session, ..self.state },
                    ..self
                }.stale(UpdateEventMask::Mode),
                event::only(true),
            ),
            EventView::PaneUpdate(panes) => if self.state.panes == panes {
                (self, event::only(false))
            } else {
                PluginView {
                    state: StateView { panes, ..self.state },
                    ..self
                }.arranged(plugin_id, seq![ActionView::HideFrames])
            },
            EventView::PermissionRequestResult(_) => (
                self,
                OutcomeView { render: false, actions: seq![ActionView::SetSelectable(false)] },
            ),
            EventView::RunCommandResult(exit_code, stdout, stderr, context) => self.ran(
                if context.contains_key("name"@) {
                    Some(context["name"@])
                } else {
                    None
                },
                CommandView {
                    exit_code,
                    stdout: decoded(stdout),
                    stderr: decoded(stderr),
                    context,
                },
            ),
            EventView::TabUpdate(tabs) => if self.state.tabs == tabs {
                (self, event::only(false))
            } else {
                PluginView {
                    state: StateView { tabs, ..self.state },
                    last_tab_count: tabs.len() as usize,
                    ..self
                }.arranged(plugin_id, self.announced(tabs))
            },
            EventView::Timer => self.ticked(),
            EventView::SessionUpdate => (self, event::only(false)),
            EventView::Other => (self, event::only(false)),
        }
    }
}

/// `String::from_utf8`: bytes that are UTF-8 become the text that they stand for, and no others
/// become a text.
#[verifier::external_body]
fn from_utf8(bytes: Vec<u8>) -> (r: Option<String>)
    ensures
        match r {
            Some(s) => vstd::utf8::valid_utf8(bytes@) && s@ == vstd::utf8::decode_utf8(bytes@),
            None => !vstd::utf8::valid_utf8(bytes@),
        },
{
    String::from_utf8(bytes).ok()
}

fn decode(bytes: Vec<u8>) -> (r: String)
    ensures
        r@ == decoded(bytes@),
{
    match from_utf8(bytes) {
        Some(s) => s,
        None => {
            let r = String::new();
            assert(r@ =~= Seq::empty());
            r
        },
    }
}

impl State {
    /// Whether the plugin `plugin_id` is in the focused tab.
    pub fn is_current_tab_plugin(&self, plugin_id: u32) -> (r: bool)
        ensures
            r == is_current(self@.state.tabs, self@.state.panes, plugin_id),
    {
        let position: usize = match window::find_active(&self.state.tabs) {
            Some(i) => self.state.tabs[i].position,
            None => {
                return false;
            },
        };
        let panes = match self.state.panes.of_tab(position) {
            Some(panes) => panes,
            None => {
                return false;
            },
        };
        let ghost all = data::pane_views(panes@);
        let ghost p = plugin_pane(plugin_id);
        let mut i: usize = 0;
        while i < panes.len()
            invariant
                i <= panes@.len(),
                all == data::pane_views(panes@),
                p == plugin_pane(plugin_id),
                search::first_at(all, p, 0) == search::first_at(all, p, i as int),
                is_current(self@.state.tabs, self@.state.panes, plugin_id) == (search::first(all, p)
                    is Some),
            decreases panes@.len() - i,
        {
            assert(all[i as int] == panes@[i as int]@);
            if panes[i].is_plugin && panes[i].id == plugin_id {
                return true;
            }
            i = i + 1;
        }
        false
    }

    /// Brings up to date whether the bar is in the focused tab.
    pub fn refresh_is_current_tab_plugin(&mut self, plugin_id: u32)
        ensures
            final(self)@ == (PluginView {
                state: old(self)@.state.refreshed(plugin_id),
                ..old(self)@
            }),
    {
        self.state.is_current_tab_plugin = self.is_current_tab_plugin(plugin_id);
    }

    /// Moves every title to the tab that holds its pane.
    pub fn rebuild_override_positions(&mut self)
        ensures
            final(self)@ == (PluginView { state: old(self)@.state.rebuilt(), ..old(self)@ }),
    {
        self.state.tab_name_overrides = titles::move_texts(
            &self.state.tab_name_overrides,
            &self.state.tabs,
            &self.state.panes,
        );
        self.state.tab_name_fallbacks = titles::move_texts(
            &self.state.tab_name_fallbacks,
            &self.state.tabs,
            &self.state.panes,
        );
    }

    fn arrange(&mut self, plugin_id: u32, actions: &mut Vec<Action>)
        ensures
            ({
                let next = old(self)@.arranged(plugin_id, event::action_views(old(actions)@));
                &&& final(self)@ == next.0
                &&& event::action_views(final(actions)@) == next.1.actions
            }),
    {
        self.keep_unplaced_titles();
        self.rebuild_override_positions();
        self.refresh_is_current_tab_plugin(plugin_id);
        self.state.cache_mask = Some(UpdateEventMask::Tab);
        self.return_strays();
        self.resolve_pending_overrides();
        self.ensure_timer(actions);
    }

    fn command_ended(
        &mut self,
        exit_code: Option<i32>,
        stdout: Vec<u8>,
        stderr: Vec<u8>,
        context: TextMap<String>,
    ) -> (r: bool)
        ensures
            (final(self)@, event::only(r)) == old(self)@.handled(
                EventView::RunCommandResult(
                    exit_code,
                    stdout@,
                    stderr@,
                    text_map::texts_of(context@),
                ),
                0,
            ),
    {
        self.state.cache_mask = Some(UpdateEventMask::Command);
        let name: String = match context.get("name") {
            Some(name) => name.clone(),
            None => {
                return false;
            },
        };
        let result = CommandResult {
            exit_code,
            stdout: decode(stdout),
            stderr: decode(stderr),
            context,
        };
        let ghost shown = result@;
        let ghost before = self@.state.command_results;
        let ghost called = name@;
        self.state.command_results.insert(name, result);
        assert(self@.state.command_results =~= before.insert(called, shown));
        self.state.is_current_tab_plugin
    }

    fn tick(&mut self, actions: &mut Vec<Action>) -> (r: bool)
        ensures
            ({
                let next = old(self)@.ticked();
                &&& final(self)@ == next.0
                &&& r == next.1.render
                &&& event::action_views(final(actions)@) == event::action_views(old(actions)@)
                    + next.1.actions
            }),
    {
        let ghost before = actions@;
        if self.has_spin() {
            self.state.spinner_idx = self.state.spinner_idx.wrapping_add(1);
            self.state.cache_mask = Some(UpdateEventMask::Tab);
            actions.push(Action::SetTimeout(Delay::Millis(300)));
            assert(event::action_views(actions@) =~= event::action_views(before)
                + old(self)@.ticked().1.actions);
            true
        } else if self.should_poll_commands() {
            self.state.cache_mask = Some(UpdateEventMask::Command);
            actions.push(Action::SetTimeout(Delay::Seconds(self.command_poll_interval_secs)));
            assert(event::action_views(actions@) =~= event::action_views(before)
                + old(self)@.ticked().1.actions);
            true
        } else {
            self.timer_active = false;
            assert(event::action_views(actions@) =~= event::action_views(before)
                + old(self)@.ticked().1.actions);
            false
        }
    }

    /// Takes an event in, for the plugin with the number `plugin_id`.
    pub fn handle_event(&mut self, event: Event, plugin_id: u32) -> (r: Outcome)
        ensures
            (final(self)@, r@) == old(self)@.handled(event@, plugin_id),
    {
        let mut actions: Vec<Action> = Vec::new();
        let ghost ev = event@;
        let ghost start = self@;
        assert(event::action_views(actions@) =~= Seq::empty());
        let render: bool = match event {
            Event::Mouse(mouse) => {
                if self.state.is_current_tab_plugin {
                    actions.push(Action::HandleMouse(mouse));
                }
                assert(event::action_views(actions@) =~= start.handled(ev, plugin_id).1.actions);
                false
            },
            Event::ModeUpdate(mode_info) => {
                self.state.mode = mode_info;
                self.state.cache_mask = Some(UpdateEventMask::Mode);
                true
            },
            Event::PaneUpdate(panes) => {
                if self.state.panes.same(&panes) {
                    return Outcome { render: false, actions };
                }
                actions.push(Action::HideFrames);
                assert(event::action_views(actions@) =~= seq![ActionView::HideFrames]);
                self.state.panes = panes;
                self.arrange(plugin_id, &mut actions);
                true
            },
            Event::PermissionRequestResult(_) => {
                actions.push(Action::SetSelectable(false));
                assert(event::action_views(actions@) =~= seq![ActionView::SetSelectable(false)]);
                false
            },
            Event::RunCommandResult(exit_code, stdout, stderr, context) => {
                self.command_ended(exit_code, stdout, stderr, context)
            },
            Event::SessionUpdate => false,
            Event::TabUpdate(tabs) => {
                if data::same_tabs(&self.state.tabs, &tabs) {
                    return Outcome { render: false, actions };
                }
                let new_tab_count: usize = tabs.len();
                if new_tab_count > self.last_tab_count && self.last_tab_count > 0
                    && self.state.is_current_tab_plugin {
                    self.broadcast_overrides(&mut actions);
                }
                assert(event::action_views(actions@) =~= start.announced(data::tab_views(tabs@)));
                self.last_tab_count = new_tab_count;
                self.state.tabs = tabs;
                self.arrange(plugin_id, &mut actions);
                true
            },
            Event::Timer => {
                let render = self.tick(&mut actions);
                assert(event::action_views(actions@) =~= start.ticked().1.actions);
                render
            },
            Event::Other => false,
        };
        Outcome { render, actions }
    }
}

} // verus!

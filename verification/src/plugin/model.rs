//! The bar as a plugin of the multiplexer.

use vstd::prelude::*;

use crate::data;
use crate::event;
use crate::event::{Action, ActionView, Delay, Event, EventView};
use crate::state::{StateView, UpdateEventMask, ZellijState};
use crate::text;
use crate::text_map;
use crate::text_map::TextMap;
use crate::titles;

verus! {

/// A title whose pane is at no known tab, and the project that goes with it.
#[derive(Debug, PartialEq, Eq)]
pub struct PendingTitle {
    pub pane_id: u32,
    pub title: String,
    pub project: Option<String>,
}

/// What a [`PendingTitle`] holds.
#[verifier::ext_equal]
pub struct PendingView {
    pub pane_id: u32,
    pub title: Seq<char>,
    pub project: Option<Seq<char>>,
}

impl View for PendingTitle {
    type V = PendingView;

    open spec fn view(&self) -> PendingView {
        PendingView {
            pane_id: self.pane_id,
            title: self.title@,
            project: text::opt(self.project),
        }
    }
}

/// The titles of a list.
pub open spec fn pending_views(pending: Seq<PendingTitle>) -> Seq<PendingView> {
    pending.map_values(|e: PendingTitle| e@)
}

/// The bar as a plugin.
#[derive(Debug, PartialEq, Eq)]
pub struct State {
    /// The events that came before the permissions were granted.
    pub pending_events: Vec<Event>,
    pub got_permissions: bool,
    pub state: ZellijState,
    pub userspace_configuration: TextMap<String>,
    /// What is wrong with the configuration, where something is.
    pub err: Option<String>,
    /// Whether a timer event is on its way.
    pub timer_active: bool,
    pub has_command_widgets: bool,
    pub command_poll_interval_secs: u64,
    /// The titles whose panes are not known yet.
    pub pending_pipe_overrides: Vec<PendingTitle>,
    /// The titles whose panes the last list of panes holds, but at no known tab.
    pub stray_titles: Vec<PendingTitle>,
    pub last_tab_count: usize,
}

/// What a [`State`] holds.
#[verifier::ext_equal]
pub struct PluginView {
    pub pending_events: Seq<EventView>,
    pub got_permissions: bool,
    pub state: StateView,
    pub configuration: Map<Seq<char>, Seq<char>>,
    pub err: Option<Seq<char>>,
    pub timer_active: bool,
    pub has_command_widgets: bool,
    pub poll_interval: u64,
    pub pending: Seq<PendingView>,
    pub strays: Seq<PendingView>,
    pub last_tab_count: usize,
}

impl View for State {
    type V = PluginView;

    open spec fn view(&self) -> PluginView {
        PluginView {
            pending_events: event::event_views(self.pending_events@),
            got_permissions: self.got_permissions,
            state: self.state@,
            configuration: text_map::texts_of(self.userspace_configuration@),
            err: text::opt(self.err),
            timer_active: self.timer_active,
            has_command_widgets: self.has_command_widgets,
            poll_interval: self.command_poll_interval_secs,
            pending: pending_views(self.pending_pipe_overrides@),
            strays: pending_views(self.stray_titles@),
            last_tab_count: self.last_tab_count,
        }
    }
}

impl Clone for PendingTitle {
    fn clone(&self) -> (r: Self)
        ensures
            r@ == self@,
    {
        PendingTitle {
            pane_id: self.pane_id,
            title: self.title.clone(),
            project: data::copy_text(&self.project),
        }
    }
}

impl PluginView {
    /// The position of the tab that holds the terminal `id`, as far as is known.
    pub open spec fn tab_of(self, id: u32) -> Option<usize> {
        titles::located(self.state.tabs, self.state.panes, id)
    }

    /// Whether the commands of the widgets have to be run again and again.
    pub open spec fn polls(self) -> bool {
        self.has_command_widgets && self.state.is_current_tab_plugin
    }

    /// How long to wait before the bar has to change by itself, where it has to.
    pub open spec fn delay(self) -> Option<Delay> {
        if titles::spins(self.state.overrides) {
            Some(Delay::Millis(300))
        } else if self.polls() {
            Some(Delay::Seconds(self.poll_interval))
        } else {
            None
        }
    }

    /// The plugin with a timer event on its way, if one is needed.
    pub open spec fn timed(self) -> PluginView {
        PluginView { timer_active: self.timer_active || self.delay() is Some, ..self }
    }

    /// What has to be asked for so that a timer event is on its way, if one is needed.
    pub open spec fn timeouts(self) -> Seq<ActionView> {
        if self.timer_active {
            Seq::empty()
        } else {
            match self.delay() {
                Some(delay) => seq![ActionView::SetTimeout(delay)],
                None => Seq::empty(),
            }
        }
    }

    /// The plugin, with the widgets that show `kind` due to be drawn again.
    pub open spec fn stale(self, kind: UpdateEventMask) -> PluginView {
        PluginView { state: StateView { cache_mask: Some(kind), ..self.state }, ..self }
    }
}

impl State {
    /// The position of the tab that holds the terminal `pane_id`, as far as is known.
    pub fn find_tab_for_pane(&self, pane_id: u32) -> (r: Option<usize>)
        ensures
            r == self@.tab_of(pane_id),
    {
        titles::find_tab_for_pane(&self.state.tabs, &self.state.panes, pane_id)
    }

    /// Whether a title holds a spinner.
    pub fn has_spin(&self) -> (r: bool)
        ensures
            r == titles::spins(self@.state.overrides),
    {
        titles::has_spin(&self.state.tab_name_overrides)
    }

    /// Whether the commands of the widgets have to be run again and again.
    pub fn should_poll_commands(&self) -> (r: bool)
        ensures
            r == self@.polls(),
    {
        self.has_command_widgets && self.state.is_current_tab_plugin
    }

    /// Asks for a timer event, if one is needed and none is on its way.
    pub fn ensure_timer(&mut self, actions: &mut Vec<Action>)
        ensures
            final(self)@ == old(self)@.timed(),
            event::action_views(final(actions)@) == event::action_views(old(actions)@)
                + old(self)@.timeouts(),
    {
        if !self.timer_active {
            let delay: Option<Delay> = if self.has_spin() {
                Some(Delay::Millis(300))
            } else if self.should_poll_commands() {
                Some(Delay::Seconds(self.command_poll_interval_secs))
            } else {
                None
            };
            if let Some(d) = delay {
                self.timer_active = true;
                actions.push(Action::SetTimeout(d));
            }
        }
        assert(event::action_views(actions@) =~= event::action_views(old(actions)@)
            + old(self)@.timeouts());
    }
}

} // verus!

//! How the plugin starts, waits for its permissions, and draws itself.

use vstd::prelude::*;

use crate::event;
use crate::event::{Action, Event, EventView, Outcome, OutcomeView};
use crate::number;
use crate::plugin::model::{PluginView, State};
use crate::state;
use crate::state::{StateView, ZellijState};
use crate::text;
use crate::text_map;
use crate::text_map::TextMap;

verus! {

/// Whether a setting gives a widget a command.
pub open spec fn is_command(key: Seq<char>) -> bool {
    text::starts(key, "command_"@) && text::ends(key, "_command"@)
}

/// Whether a setting says how often a command is run.
pub open spec fn is_interval(key: Seq<char>) -> bool {
    text::starts(key, "command_"@) && text::ends(key, "_interval"@)
}

/// Whether a configuration gives a widget a command.
pub open spec fn has_commands(config: Map<Seq<char>, Seq<char>>) -> bool {
    exists|key: Seq<char>| #[trigger] config.contains_key(key) && is_command(key)
}

/// Whether the setting `key` says that a command is run every `n` seconds.
pub open spec fn asks_for(config: Map<Seq<char>, Seq<char>>, key: Seq<char>, n: nat) -> bool {
    &&& config.contains_key(key)
    &&& is_interval(key)
    &&& n > 0
    &&& number::parsed(config[key], i64::MAX as nat) == Some(n)
}

/// Whether `n` is the shortest interval at which a command is run.
pub open spec fn is_shortest(config: Map<Seq<char>, Seq<char>>, n: nat) -> bool {
    &&& exists|key: Seq<char>| #[trigger] asks_for(config, key, n)
    &&& forall|key: Seq<char>, m: nat| #[trigger] asks_for(config, key, m) ==> n <= m
}

/// Whether the commands are run every `secs` seconds: at the shortest interval that the
/// configuration asks for, and every second where it asks for none.
pub open spec fn is_poll_interval(config: Map<Seq<char>, Seq<char>>, secs: u64) -> bool {
    ||| is_shortest(config, secs as nat)
    ||| {
        &&& secs == 1
        &&& forall|key: Seq<char>, m: nat| !#[trigger] asks_for(config, key, m)
    }
}

/// Whether the configuration gives a widget a command.
pub fn has_command_widgets(config: &TextMap<String>) -> (r: bool)
    ensures
        r == has_commands(text_map::texts_of(config@)),
{
    let ghost all = text_map::texts_of(config@);
    let mut i: usize = 0;
    while i < config.len()
        invariant
            i <= config.keys().len(),
            all == text_map::texts_of(config@),
            forall|j: int| 0 <= j < i ==> !is_command(#[trigger] config.keys()[j]),
        decreases config.keys().len() - i,
    {
        let (key, _) = config.entry(i);
        if text::starts_with(key, "command_") && text::ends_with(key, "_command") {
            assert(all.contains_key(key@) && is_command(key@));
            return true;
        }
        i = i + 1;
    }
    assert forall|key: Seq<char>| #[trigger] all.contains_key(key) implies !is_command(key) by {
        let j = config.keys().index_of(key);
        assert(config.keys()[j] == key);
    }
    false
}

/// The number of seconds after which the commands of the widgets are run again.
pub fn command_poll_interval_secs_from_config(config: &TextMap<String>) -> (r: u64)
    ensures
        is_poll_interval(text_map::texts_of(config@), r),
{
    let ghost all = text_map::texts_of(config@);
    let mut least: Option<u64> = None;
    let mut i: usize = 0;
    while i < config.len()
        invariant
            i <= config.keys().len(),
            all == text_map::texts_of(config@),
            match least {
                Some(n) => {
                    &&& exists|key: Seq<char>| #[trigger] asks_for(all, key, n as nat)
                    &&& forall|j: int, m: nat|
                        0 <= j < i ==> #[trigger] asks_for(all, config.keys()[j], m) ==> n <= m
                },
                None => forall|j: int, m: nat|
                    0 <= j < i ==> !#[trigger] asks_for(all, config.keys()[j], m),
            },
        decreases config.keys().len() - i,
    {
        let (key, value) = config.entry(i);
        assert(all[key@] == value@);
        if text::starts_with(key, "command_") && text::ends_with(key, "_interval") {
            match number::parse(value.as_str(), i64::MAX as u64) {
                Some(n) => {
                    if n > 0 {
                        assert(asks_for(all, key@, n as nat));
                        match least {
                            Some(m) => {
                                if n < m {
                                    least = Some(n);
                                }
                            },
                            None => {
                                least = Some(n);
                            },
                        }
                    }
                },
                None => {},
            }
        }
        i = i + 1;
    }
    assert forall|key: Seq<char>, m: nat| #[trigger] asks_for(all, key, m) implies least is Some
        && least->0 <= m by {
        let j = config.keys().index_of(key);
        assert(config.keys()[j] == key);
        assert(asks_for(all, config.keys()[j], m));
    }
    match least {
        Some(n) => n,
        None => 1,
    }
}

/// The plugin before it is loaded.
pub open spec fn unloaded() -> PluginView {
    PluginView {
        pending_events: Seq::empty(),
        got_permissions: false,
        state: state::blank(Seq::empty()),
        configuration: Map::empty(),
        err: None,
        timer_active: false,
        has_command_widgets: false,
        poll_interval: 0,
        pending: Seq::empty(),
        strays: Seq::empty(),
        last_tab_count: 0,
    }
}

impl Default for State {
    /// The plugin before it is loaded.
    fn default() -> (r: Self)
        ensures
            r@ == unloaded(),
    {
        let r = State {
            pending_events: Vec::new(),
            got_permissions: false,
            state: ZellijState::new(String::new()),
            userspace_configuration: TextMap::new(),
            err: None,
            timer_active: false,
            has_command_widgets: false,
            command_poll_interval_secs: 0,
            pending_pipe_overrides: Vec::new(),
            stray_titles: Vec::new(),
            last_tab_count: 0,
        };
        assert(r@ =~= unloaded());
        r
    }
}

/// What to draw.
#[derive(Debug, PartialEq, Eq)]
pub enum Drawing {
    /// Nothing.
    Nothing,
    /// A line that says what is wrong.
    Error(String),
    /// The widgets.
    Bar,
}

/// What a [`Drawing`] holds.
#[verifier::ext_equal]
pub enum DrawingView {
    Nothing,
    Error(Seq<char>),
    Bar,
}

impl View for Drawing {
    type V = DrawingView;

    open spec fn view(&self) -> DrawingView {
        match *self {
            Drawing::Nothing => DrawingView::Nothing,
            Drawing::Error(s) => DrawingView::Error(s@),
            Drawing::Bar => DrawingView::Bar,
        }
    }
}

impl PluginView {
    /// The plugin after an event reached it, and the events that are due to be handled. Until the
    /// permissions are granted, events wait. Then those that waited are due, the last one first,
    /// and after them the event itself.
    pub open spec fn updated(self, ev: EventView) -> (PluginView, Seq<EventView>) {
        if ev == EventView::PermissionRequestResult(true) {
            (
                PluginView { got_permissions: true, pending_events: Seq::empty(), ..self },
                self.pending_events.reverse().push(ev),
            )
        } else if self.got_permissions {
            (self, seq![ev])
        } else {
            (PluginView { pending_events: self.pending_events.push(ev), ..self }, Seq::empty())
        }
    }

    /// The plugin after `events`, one after another, and what it asks for: what it asks for at each
    /// event, in order, and to be drawn again where the last event calls for it.
    pub open spec fn ran_through(self, events: Seq<EventView>, plugin_id: u32) -> (
        PluginView,
        OutcomeView,
    )
        decreases events.len(),
    {
        if events.len() == 0 {
            (self, event::only(false))
        } else {
            let (before, asked) = self.ran_through(events.drop_last(), plugin_id);
            let (after, last) = before.handled(events.last(), plugin_id);
            (
                after,
                OutcomeView { render: last.render, actions: asked.actions + last.actions },
            )
        }
    }

    /// The plugin after an event reached it, and what it asks for: every event that is due is
    /// handled, in order.
    pub open spec fn received(self, ev: EventView, plugin_id: u32) -> (PluginView, OutcomeView) {
        let (next, due) = self.updated(ev);
        next.ran_through(due, plugin_id)
    }

    /// The plugin when it is drawn in `cols` columns, and what to draw.
    pub open spec fn drawn(self, cols: usize) -> (PluginView, DrawingView) {
        if !self.got_permissions {
            (self, DrawingView::Nothing)
        } else {
            match self.err {
                Some(err) => (self, DrawingView::Error("Error: "@ + err)),
                None => (
                    PluginView { state: StateView { cols, ..self.state }, ..self },
                    DrawingView::Bar,
                ),
            }
        }
    }
}

impl State {
    /// Starts the plugin with a configuration, with the name of this instance, and with what is
    /// wrong with the configuration, if anything is.
    pub fn load(&mut self, configuration: TextMap<String>, problem: Option<String>, uuid: String)
        ensures
            match problem {
                Some(err) => final(self)@ == (PluginView { err: Some(err@), ..old(self)@ }),
                None => {
                    let config = text_map::texts_of(configuration@);
                    &&& is_poll_interval(config, final(self)@.poll_interval)
                    &&& final(self)@ == (PluginView {
                        configuration: config,
                        has_command_widgets: has_commands(config),
                        poll_interval: final(self)@.poll_interval,
                        pending_events: Seq::empty(),
                        got_permissions: false,
                        state: state::blank(uuid@),
                        strays: Seq::empty(),
                        ..old(self)@
                    })
                },
            },
    {
        if let Some(err) = problem {
            self.err = Some(err);
            return;
        }
        self.has_command_widgets = has_command_widgets(&configuration);
        self.command_poll_interval_secs = command_poll_interval_secs_from_config(&configuration);
        self.userspace_configuration = configuration;
        self.pending_events = Vec::new();
        self.got_permissions = false;
        self.state = ZellijState::new(uuid);
        self.stray_titles = Vec::new();
        assert(self@.pending_events =~= Seq::empty());
        assert(self@.strays =~= Seq::empty());
    }

    /// Takes an event in, and returns the events that are due to be handled, in order.
    pub fn update(&mut self, event: Event) -> (r: Vec<Event>)
        ensures
            (final(self)@, event::event_views(r@)) == old(self)@.updated(event@),
    {
        let ghost ev = event@;
        let granted: bool = match &event {
            Event::PermissionRequestResult(granted) => *granted,
            _ => false,
        };
        let mut due: Vec<Event> = Vec::new();
        if granted {
            let ghost all = self@.pending_events;
            self.got_permissions = true;
            assert(all.take(all.len() as int) =~= all);
            assert(event::event_views(due@) =~= all.skip(all.len() as int).reverse());
            while self.pending_events.len() > 0
                invariant
                    self.pending_events@.len() <= all.len(),
                    all == old(self)@.pending_events,
                    self@ == (PluginView {
                        got_permissions: true,
                        pending_events: all.take(self.pending_events@.len() as int),
                        ..old(self)@
                    }),
                    event::event_views(due@) == all.skip(
                        self.pending_events@.len() as int,
                    ).reverse(),
                decreases self.pending_events@.len(),
            {
                let ghost n = self.pending_events@.len() as int;
                let ghost earlier = event::event_views(due@);
                assert(all.take(n)[n - 1] == event::event_views(self.pending_events@)[n - 1]);
                if let Some(e) = self.pending_events.pop() {
                    due.push(e);
                }
                assert(event::event_views(due@) =~= earlier.push(all[n - 1]));
                assert(all.skip(n - 1).reverse() =~= all.skip(n).reverse().push(all[n - 1]));
                assert(self@.pending_events =~= all.take(n - 1));
            }
            assert(all.skip(0) =~= all);
            assert(self@.pending_events =~= Seq::empty());
            due.push(event);
            assert(event::event_views(due@) =~= all.reverse().push(ev));
            return due;
        }
        if !self.got_permissions {
            self.pending_events.push(event);
            assert(self@.pending_events =~= old(self)@.pending_events.push(ev));
            assert(event::event_views(due@) =~= Seq::empty());
            return due;
        }
        due.push(event);
        assert(event::event_views(due@) =~= seq![ev]);
        due
    }

    /// Takes an event in, for the plugin with the number `plugin_id`, and handles every event that
    /// is due, in order.
    pub fn receive(&mut self, event: Event, plugin_id: u32) -> (r: Outcome)
        ensures
            (final(self)@, r@) == old(self)@.received(event@, plugin_id),
    {
        let mut due = self.update(event);
        let ghost start = self@;
        let ghost all = event::event_views(due@);
        let ghost mut done: int = 0;
        let mut render: bool = false;
        let mut actions: Vec<Action> = Vec::new();
        proof {
            assert(all.take(0) =~= Seq::empty());
            assert(all.skip(0) =~= all);
            assert(event::action_views(actions@) =~= Seq::empty());
        }
        while due.len() > 0
            invariant
                0 <= done <= all.len(),
                event::event_views(due@) == all.skip(done),
                ({
                    let (now, asked) = start.ran_through(all.take(done), plugin_id);
                    &&& self@ == now
                    &&& render == asked.render
                    &&& event::action_views(actions@) == asked.actions
                }),
            decreases due@.len(),
        {
            let ghost left = event::event_views(due@);
            let ghost held = due@;
            assert(left.len() == due@.len());
            assert(left.len() == all.len() - done);
            let ghost before = event::action_views(actions@);
            let ev = due.remove(0);
            let outcome = self.handle_event(ev, plugin_id);
            let ghost asked = outcome@.actions;
            let ghost first = actions@;
            let mut more = outcome.actions;
            let ghost last = more@;
            render = outcome.render;
            actions.append(&mut more);
            proof {
                assert(left[0] == all[done]);
                assert(ev@ == all[done]);
                assert(all.take(done + 1).drop_last() =~= all.take(done));
                assert(all.take(done + 1).last() == all[done]);
                assert forall|k: int| 0 <= k < due@.len() implies #[trigger] event::event_views(
                    due@,
                )[k] == all.skip(done + 1)[k] by {
                    assert(due@[k] == held[k + 1]);
                    assert(left[k + 1] == all[done + k + 1]);
                }
                assert(event::event_views(due@) =~= all.skip(done + 1));
                assert(actions@ =~= first + last);
                assert(event::action_views(actions@) =~= before + asked);
                done = done + 1;
            }
        }
        assert(all.take(done) =~= all);
        Outcome { render, actions }
    }

    /// Says what to draw in `cols` columns.
    pub fn render(&mut self, cols: usize) -> (r: Drawing)
        ensures
            (final(self)@, r@) == old(self)@.drawn(cols),
    {
        if !self.got_permissions {
            return Drawing::Nothing;
        }
        if let Some(err) = &self.err {
            return Drawing::Error(text::concat("Error: ", err.as_str()));
        }
        self.state.cols = cols;
        Drawing::Bar
    }
}

} // verus!

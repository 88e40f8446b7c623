//! What the plugin makes of messages.

use vstd::prelude::*;

use crate::event;
use crate::event::{Action, ActionView, MessageView, Outcome, OutcomeView, PipeMessage};
use crate::number;
use crate::plugin::model::{PendingTitle, PendingView, PluginView, State};
use crate::plugin::pending;
use crate::state::{StateView, UpdateEventMask};
use crate::tab_name;
use crate::text;
use crate::titles;

verus! {

/// Whether a message is meant for another session than `session`. A message that names none, or
/// that comes while the name of the session is not known, is meant for every session.
pub open spec fn is_for_other(m: MessageView, session: Option<Seq<char>>) -> bool {
    match (m.arg("session"@), session) {
        (Some(target), Some(current)) => target != current,
        _ => false,
    }
}

/// The pane that a message names.
pub open spec fn named_pane(m: MessageView) -> Option<u32> {
    match m.arg("pane_id"@) {
        Some(s) => match number::parsed(s, u32::MAX as nat) {
            Some(n) => Some(n as u32),
            None => None,
        },
        None => None,
    }
}

impl PluginView {
    /// Whether the pane `id` already gave the tab at `position` this title, with this project.
    pub open spec fn has_title(
        self,
        position: usize,
        id: u32,
        title: Seq<char>,
        project: Option<Seq<char>>,
    ) -> bool {
        &&& tab_name::text_of(self.state.overrides, position, id) == Some(title)
        &&& project is Some ==> tab_name::text_of(self.state.fallbacks, position, id) == project
    }

    /// The plugin without the title of the pane `id` and its project.
    pub open spec fn untitled(self, id: u32) -> PluginView {
        PluginView {
            state: StateView {
                overrides: titles::without(self.state.overrides, id),
                fallbacks: titles::without(self.state.fallbacks, id),
                ..self.state
            },
            ..self
        }
    }

    /// The plugin after the pane `id` gave its tab a title, and what it asks for: an empty title
    /// takes the title of the pane away, also one that waits; any other waits until its pane is
    /// known, and changes nothing where the tab has it already.
    pub open spec fn retitled(
        self,
        id: u32,
        title: Seq<char>,
        project: Option<Seq<char>>,
    ) -> (PluginView, OutcomeView) {
        match self.tab_of(id) {
            None => if title.len() == 0 {
                (
                    self.untitled(id).unstrayed(id).unawaited(id).stale(UpdateEventMask::Tab),
                    event::only(true),
                )
            } else {
                (self.waiting(PendingView { pane_id: id, title, project }), event::only(false))
            },
            Some(position) => if title.len() == 0 {
                (self.untitled(id).stale(UpdateEventMask::Tab), event::only(true))
            } else if self.has_title(position, id, title, project) {
                (self.timed(), OutcomeView { render: false, actions: self.timeouts() })
            } else {
                let next = PluginView {
                    state: pending::titled(self.state, position, id, title, project),
                    ..self
                };
                (
                    next.timed().stale(UpdateEventMask::Tab),
                    OutcomeView { render: true, actions: next.timeouts() },
                )
            },
        }
    }

    /// The plugin after a message, and what it asks for.
    pub open spec fn piped(self, m: MessageView) -> (PluginView, OutcomeView) {
        if m.name == "title"@ {
            match (m.payload, named_pane(m)) {
                (Some(title), Some(id)) => if is_for_other(m, self.state.session) {
                    (self, event::only(false))
                } else {
                    self.retitled(id, title, m.arg("fallback"@))
                },
                _ => (self, event::only(false)),
            }
        } else if m.name == "focus"@ {
            (
                self,
                OutcomeView {
                    render: false,
                    actions: match named_pane(m) {
                        Some(id) => if is_for_other(m, self.state.session) {
                            Seq::empty()
                        } else {
                            seq![ActionView::FocusTerminalPane(id)]
                        },
                        None => Seq::empty(),
                    },
                },
            )
        } else {
            (
                self,
                OutcomeView {
                    render: false,
                    actions: match m.payload {
                        Some(input) => seq![ActionView::Protocol(input)],
                        None => Seq::empty(),
                    },
                },
            )
        }
    }
}

/// The title that a message carries. It is taken as it came.
pub fn sanitize_pipe_title_payload(payload: String) -> (r: String)
    ensures
        r@ == payload@,
{
    payload
}

fn parse_pane(message: &PipeMessage) -> (r: Option<u32>)
    ensures
        r == named_pane(message@),
{
    match message.arg("pane_id") {
        Some(s) => match number::parse(s.as_str(), u32::MAX as u64) {
            Some(n) => Some(n as u32),
            None => None,
        },
        None => None,
    }
}

fn same_as(found: Option<&String>, wanted: &String) -> (r: bool)
    ensures
        r == (found is Some && found->0@ == wanted@),
{
    match found {
        Some(t) => text::same(t.as_str(), wanted.as_str()),
        None => false,
    }
}

impl State {
    fn is_for_other_session(&self, message: &PipeMessage) -> (r: bool)
        ensures
            r == is_for_other(message@, self@.state.session),
    {
        match (message.arg("session"), &self.state.mode.session_name) {
            (Some(target), Some(current)) => !text::same(target.as_str(), current.as_str()),
            _ => false,
        }
    }

    fn remove_title(&mut self, id: u32)
        ensures
            final(self)@ == old(self)@.untitled(id),
    {
        titles::remove_pane(&mut self.state.tab_name_overrides, id);
        titles::remove_pane(&mut self.state.tab_name_fallbacks, id);
    }

    fn retitle(&mut self, id: u32, title: String, project: Option<String>) -> (r: Outcome)
        ensures
            (final(self)@, r@) == old(self)@.retitled(id, title@, text::opt(project)),
    {
        let mut actions: Vec<Action> = Vec::new();
        assert(event::action_views(actions@) =~= Seq::empty());
        let position: usize = match self.find_tab_for_pane(id) {
            Some(position) => position,
            None => {
                if title.as_str().is_empty() {
                    self.remove_title(id);
                    self.forget_stray(id);
                    self.forget_waiting(id);
                    self.state.cache_mask = Some(UpdateEventMask::Tab);
                    return Outcome { render: true, actions };
                }
                self.wait_for_pane(PendingTitle { pane_id: id, title, project });
                return Outcome { render: false, actions };
            },
        };
        if title.as_str().is_empty() {
            self.remove_title(id);
            self.state.cache_mask = Some(UpdateEventMask::Tab);
            return Outcome { render: true, actions };
        }
        let same_title = same_as(
            tab_name::find_text(&self.state.tab_name_overrides, position, id),
            &title,
        );
        let same_project = match &project {
            Some(f) => same_as(tab_name::find_text(&self.state.tab_name_fallbacks, position, id), f),
            None => true,
        };
        if same_title && same_project {
            self.ensure_timer(&mut actions);
            assert(event::action_views(actions@) =~= old(self)@.timeouts());
            return Outcome { render: false, actions };
        }
        titles::put_text(&mut self.state.tab_name_overrides, position, id, title);
        if let Some(f) = project {
            titles::put_text(&mut self.state.tab_name_fallbacks, position, id, f);
        }
        let ghost next = self@;
        self.ensure_timer(&mut actions);
        assert(event::action_views(actions@) =~= next.timeouts());
        self.state.cache_mask = Some(UpdateEventMask::Tab);
        Outcome { render: true, actions }
    }

    /// Takes a message in. `title` gives the tab of a pane a title, `focus` moves the focus to a
    /// pane, and anything else is for the widgets.
    pub fn pipe(&mut self, message: PipeMessage) -> (r: Outcome)
        ensures
            (final(self)@, r@) == old(self)@.piped(message@),
    {
        let mut actions: Vec<Action> = Vec::new();
        assert(event::action_views(actions@) =~= Seq::empty());
        if text::same(message.name.as_str(), "title") {
            if self.is_for_other_session(&message) {
                return Outcome { render: false, actions };
            }
            let pane_id = parse_pane(&message);
            let project = match message.arg("fallback") {
                Some(f) => Some(f.clone()),
                None => None,
            };
            match (message.payload, pane_id) {
                (Some(payload), Some(id)) => {
                    return self.retitle(id, sanitize_pipe_title_payload(payload), project);
                },
                _ => {
                    return Outcome { render: false, actions };
                },
            }
        }
        if text::same(message.name.as_str(), "focus") {
            if !self.is_for_other_session(&message) {
                if let Some(id) = parse_pane(&message) {
                    actions.push(Action::FocusTerminalPane(id));
                    assert(event::action_views(actions@) =~= seq![
                        ActionView::FocusTerminalPane(id),
                    ]);
                }
            }
            return Outcome { render: false, actions };
        }
        if let Some(input) = message.payload {
            let ghost taken = input@;
            actions.push(Action::Protocol(input));
            assert(event::action_views(actions@) =~= seq![ActionView::Protocol(taken)]);
        }
        Outcome { render: false, actions }
    }
}

} // verus!

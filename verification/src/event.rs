//! What reaches the bar, and what the bar asks for in return.

use vstd::prelude::*;

use crate::data;
use crate::data::{InputMode, ModeInfo, Mouse, PaneManifest, PaneView, TabInfo, TabView};
use crate::text;
use crate::text_map;
use crate::text_map::TextMap;

verus! {

/// Something that happened in the multiplexer.
#[derive(Debug, PartialEq, Eq)]
pub enum Event {
    /// The mouse acted on the bar.
    Mouse(Mouse),
    /// The mode, or the name of the session, is now this.
    ModeUpdate(ModeInfo),
    /// The panes are now these.
    PaneUpdate(PaneManifest),
    /// The user granted the permissions that the bar asked for, or denied them.
    PermissionRequestResult(bool),
    /// A command ended: its status, what it wrote to its two outputs, and what it was started with.
    RunCommandResult(Option<i32>, Vec<u8>, Vec<u8>, TextMap<String>),
    /// The sessions changed.
    SessionUpdate,
    /// The tabs are now these.
    TabUpdate(Vec<TabInfo>),
    /// The time that was asked for is over.
    Timer,
    /// Anything else.
    Other,
}

/// What an [`Event`] holds.
#[verifier::ext_equal]
pub enum EventView {
    Mouse(Mouse),
    ModeUpdate(InputMode, Option<Seq<char>>),
    PaneUpdate(Map<usize, Seq<PaneView>>),
    PermissionRequestResult(bool),
    RunCommandResult(Option<i32>, Seq<u8>, Seq<u8>, Map<Seq<char>, Seq<char>>),
    SessionUpdate,
    TabUpdate(Seq<TabView>),
    Timer,
    Other,
}

impl View for Event {
    type V = EventView;

    open spec fn view(&self) -> EventView {
        match *self {
            Event::Mouse(m) => EventView::Mouse(m),
            Event::ModeUpdate(m) => EventView::ModeUpdate(m.mode, text::opt(m.session_name)),
            Event::PaneUpdate(p) => EventView::PaneUpdate(p@),
            Event::PermissionRequestResult(granted) => EventView::PermissionRequestResult(granted),
            Event::RunCommandResult(code, out, err, context) => EventView::RunCommandResult(
                code,
                out@,
                err@,
                text_map::texts_of(context@),
            ),
            Event::SessionUpdate => EventView::SessionUpdate,
            Event::TabUpdate(tabs) => EventView::TabUpdate(data::tab_views(tabs@)),
            Event::Timer => EventView::Timer,
            Event::Other => EventView::Other,
        }
    }
}

/// The events of a list.
pub open spec fn event_views(events: Seq<Event>) -> Seq<EventView> {
    events.map_values(|e: Event| e@)
}

/// A message to the bar.
#[derive(Debug, PartialEq, Eq)]
pub struct PipeMessage {
    pub name: String,
    pub payload: Option<String>,
    pub args: TextMap<String>,
}

/// What a [`PipeMessage`] holds.
#[verifier::ext_equal]
pub struct MessageView {
    pub name: Seq<char>,
    pub payload: Option<Seq<char>>,
    pub args: Map<Seq<char>, Seq<char>>,
}

impl MessageView {
    /// The argument `key`, where there is one.
    pub open spec fn arg(self, key: Seq<char>) -> Option<Seq<char>> {
        if self.args.contains_key(key) {
            Some(self.args[key])
        } else {
            None
        }
    }
}

impl View for PipeMessage {
    type V = MessageView;

    open spec fn view(&self) -> MessageView {
        MessageView {
            name: self.name@,
            payload: text::opt(self.payload),
            args: text_map::texts_of(self.args@),
        }
    }
}

impl PipeMessage {
    /// The argument `key`, where there is one.
    pub fn arg(&self, key: &str) -> (r: Option<&String>)
        ensures
            match r {
                Some(s) => self@.arg(key@) == Some(s@),
                None => self@.arg(key@) is None,
            },
    {
        self.args.get(key)
    }
}

/// A length of time.
#[derive(Clone, Copy, Debug, PartialEq, Eq, Structural)]
pub enum Delay {
    Millis(u64),
    Seconds(u64),
}

/// Something that the bar asks the multiplexer for.
#[derive(Debug, PartialEq, Eq)]
pub enum Action {
    /// Let the widgets act on what the mouse did.
    HandleMouse(Mouse),
    /// Hide or show the frames of the panes, as the configuration says.
    HideFrames,
    /// Let the user move the focus to the bar, or keep them from it.
    SetSelectable(bool),
    /// Send a timer event after a while.
    SetTimeout(Delay),
    /// Focus a terminal, and its tab with it.
    FocusTerminalPane(u32),
    /// Send a message to every instance of the bar.
    Send(PipeMessage),
    /// Let the widgets act on a message of their own, and draw the bar again if they ask for it.
    Protocol(String),
}

/// What an [`Action`] holds.
#[verifier::ext_equal]
pub enum ActionView {
    HandleMouse(Mouse),
    HideFrames,
    SetSelectable(bool),
    SetTimeout(Delay),
    FocusTerminalPane(u32),
    Send(MessageView),
    Protocol(Seq<char>),
}

impl View for Action {
    type V = ActionView;

    open spec fn view(&self) -> ActionView {
        match *self {
            Action::HandleMouse(m) => ActionView::HandleMouse(m),
            Action::HideFrames => ActionView::HideFrames,
            Action::SetSelectable(b) => ActionView::SetSelectable(b),
            Action::SetTimeout(d) => ActionView::SetTimeout(d),
            Action::FocusTerminalPane(id) => ActionView::FocusTerminalPane(id),
            Action::Send(m) => ActionView::Send(m@),
            Action::Protocol(s) => ActionView::Protocol(s@),
        }
    }
}

/// The actions of a list.
pub open spec fn action_views(actions: Seq<Action>) -> Seq<ActionView> {
    actions.map_values(|a: Action| a@)
}

/// What the bar wants after something reached it.
#[derive(Debug, PartialEq, Eq)]
pub struct Outcome {
    /// Whether the bar has to be drawn again.
    pub render: bool,
    /// What the bar asks for, in order.
    pub actions: Vec<Action>,
}

/// What an [`Outcome`] holds.
#[verifier::ext_equal]
pub struct OutcomeView {
    pub render: bool,
    pub actions: Seq<ActionView>,
}

impl View for Outcome {
    type V = OutcomeView;

    open spec fn view(&self) -> OutcomeView {
        OutcomeView { render: self.render, actions: action_views(self.actions@) }
    }
}

/// No more than to draw the bar again, or to leave it.
pub open spec fn only(render: bool) -> OutcomeView {
    OutcomeView { render, actions: Seq::empty() }
}

} // verus!

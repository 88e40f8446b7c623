//! The messages that give the titles to the other instances of the bar.

use vstd::prelude::*;
use vstd::string::*;

use crate::event;
use crate::event::{Action, ActionView, MessageView, OutcomeView, PipeMessage};
use crate::number;
use crate::ordered;
use crate::plugin::model::{PluginView, State};
use crate::state::StateView;
use crate::tab_name;
use crate::text_map::TextMap;
use crate::titles;

verus! {

/// The message that gives the title of the pane `id` to the other instances of a session.
pub open spec fn title_message(
    session: Seq<char>,
    id: u32,
    title: Seq<char>,
    project: Option<Seq<char>>,
) -> MessageView {
    let args = Map::<Seq<char>, Seq<char>>::empty().insert(
        "pane_id"@,
        number::numeral(id as nat),
    ).insert("session"@, session);
    MessageView {
        name: "title"@,
        payload: Some(title),
        args: match project {
            Some(f) => if f.len() > 0 {
                args.insert("fallback"@, f)
            } else {
                args
            },
            None => args,
        },
    }
}

impl StateView {
    /// The message that gives the title at `place` to the other instances of a session.
    pub open spec fn message_at(self, session: Seq<char>, place: (usize, u32)) -> MessageView {
        title_message(
            session,
            place.1,
            self.overrides[place.0][place.1],
            titles::first_text(self.fallbacks, place.1),
        )
    }

    /// The messages that give the titles at `places` to the other instances of a session.
    pub open spec fn sends(self, session: Seq<char>, places: Seq<(usize, u32)>) -> Seq<
        ActionView,
    > {
        places.map_values(
            |place: (usize, u32)| ActionView::Send(self.message_at(session, place)),
        )
    }

    /// The messages that give all titles to the other instances of the session, in the order of
    /// the tabs and their panes. There are none while the name of the session is not known.
    pub open spec fn broadcast(self) -> Seq<ActionView> {
        match self.session {
            Some(session) => self.sends(
                session,
                ordered::listing(titles::places(self.overrides)),
            ),
            None => Seq::empty(),
        }
    }
}

impl PluginView {
    /// The plugin after it got the messages among `actions`, one after another, and what it asks
    /// for at the last.
    pub open spec fn told(self, actions: Seq<ActionView>) -> (PluginView, OutcomeView)
        decreases actions.len(),
    {
        if actions.len() == 0 {
            (self, event::only(false))
        } else {
            let before = self.told(actions.drop_last()).0;
            match actions.last() {
                ActionView::Send(m) => before.piped(m),
                _ => (before, event::only(false)),
            }
        }
    }
}

proof fn lemma_sends(
    s: StateView,
    session: Seq<char>,
    places: Seq<(usize, u32)>,
    i: int,
    before: Seq<ActionView>,
)
    requires
        0 <= i < places.len(),
    ensures
        before + s.sends(session, places.take(i + 1)) == (before + s.sends(
            session,
            places.take(i),
        )).push(ActionView::Send(s.message_at(session, places[i]))),
{
    assert(before + s.sends(session, places.take(i + 1)) =~= (before + s.sends(
        session,
        places.take(i),
    )).push(ActionView::Send(s.message_at(session, places[i]))));
}

proof fn lemma_action_pushed(actions: Seq<Action>, action: Action)
    ensures
        event::action_views(actions.push(action)) == event::action_views(actions).push(action@),
{
    assert(event::action_views(actions.push(action)) =~= event::action_views(actions).push(
        action@,
    ));
}

impl State {
    fn title_message(&self, session: &String, id: u32, title: &String) -> (r: PipeMessage)
        ensures
            r@ == title_message(
                session@,
                id,
                title@,
                titles::first_text(self@.state.fallbacks, id),
            ),
    {
        let mut args: TextMap<String> = TextMap::new();
        args.insert("pane_id".to_owned(), number::decimal(id as u128));
        args.insert("session".to_owned(), session.clone());
        if let Some(f) = titles::find_first_text(&self.state.tab_name_fallbacks, id) {
            if !f.as_str().is_empty() {
                args.insert("fallback".to_owned(), f.clone());
            }
        }
        let r = PipeMessage { name: "title".to_owned(), payload: Some(title.clone()), args };
        assert(r@.args =~= title_message(
            session@,
            id,
            title@,
            titles::first_text(self@.state.fallbacks, id),
        ).args);
        r
    }

    fn push_message(
        &self,
        session: &String,
        position: usize,
        id: u32,
        actions: &mut Vec<Action>,
    )
        requires
            tab_name::text_of(self.state@.overrides, position, id) is Some,
        ensures
            event::action_views(final(actions)@) == event::action_views(old(actions)@).push(
                ActionView::Send(self.state@.message_at(session@, (position, id))),
            ),
    {
        if let Some(title) = tab_name::find_text(&self.state.tab_name_overrides, position, id) {
            let message = self.title_message(session, id, title);
            proof {
                lemma_action_pushed(actions@, Action::Send(message));
            }
            actions.push(Action::Send(message));
        }
    }

    /// Gives all titles to the other instances of the session.
    pub fn broadcast_overrides(&self, actions: &mut Vec<Action>)
        ensures
            event::action_views(final(actions)@) == event::action_views(old(actions)@)
                + self@.state.broadcast(),
    {
        let ghost before = event::action_views(actions@);
        let session = match &self.state.mode.session_name {
            Some(s) => s,
            None => {
                assert(before + self@.state.broadcast() =~= before);
                return;
            },
        };
        let places = titles::listed_places(&self.state.tab_name_overrides);
        assert(before + self.state@.sends(session@, places@.take(0)) =~= before);
        let mut i: usize = 0;
        while i < places.len()
            invariant
                i <= places@.len(),
                ordered::lists(places@, titles::places(self.state@.overrides)),
                event::action_views(actions@) == before + self.state@.sends(
                    session@,
                    places@.take(i as int),
                ),
            decreases places@.len() - i,
        {
            let (position, id) = places[i];
            assert(titles::places(self.state@.overrides).contains((position, id))) by {
                assert(places@.contains(places@[i as int]));
            }
            proof {
                lemma_sends(self.state@, session@, places@, i as int, before);
            }
            self.push_message(session, position, id, actions);
            i = i + 1;
        }
        assert(places@.take(i as int) =~= places@);
    }
}

} // verus!

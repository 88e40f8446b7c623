use std::collections::BTreeMap;

use zjtabs::data::{InputMode, ModeInfo, Mouse, PaneInfo, PaneManifest, TabInfo};
use zjtabs::event::{Action, Delay, Event, Outcome, PipeMessage};
use zjtabs::plugin::life::{
    command_poll_interval_secs_from_config, has_command_widgets, Drawing,
};
use zjtabs::plugin::messages::sanitize_pipe_title_payload;
use zjtabs::plugin::model::{PendingTitle, State};
use zjtabs::plugin::saved;
use zjtabs::state::UpdateEventMask;
use zjtabs::tab_name::find_text;
use zjtabs::text_map::TextMap;

const BAR: u32 = 100;

fn map(entries: &[(&str, &str)]) -> TextMap<String> {
    let mut m = TextMap::new();
    for (key, value) in entries {
        m.insert(key.to_string(), value.to_string());
    }
    m
}

fn message(name: &str, payload: Option<&str>, args: &[(&str, &str)]) -> PipeMessage {
    PipeMessage {
        name: name.to_owned(),
        payload: payload.map(|s| s.to_owned()),
        args: map(args),
    }
}

fn tabs(count: usize, active: usize) -> Vec<TabInfo> {
    (0..count)
        .map(|position| TabInfo {
            position,
            name: format!("Tab #{}", position + 1),
            active: position == active,
            ..TabInfo::default()
        })
        .collect()
}

/// One terminal for each number, and the bar itself, in every tab.
fn panes(ids: &[u32]) -> PaneManifest {
    let mut m = BTreeMap::new();
    for (position, id) in ids.iter().enumerate() {
        let terminal = PaneInfo {
            id: *id,
            ..PaneInfo::default()
        };
        let bar = PaneInfo {
            id: BAR,
            is_plugin: true,
            ..PaneInfo::default()
        };
        m.insert(position, vec![bar, terminal]);
    }
    PaneManifest { panes: m }
}

fn session(name: &str) -> Event {
    Event::ModeUpdate(ModeInfo {
        mode: InputMode::Normal,
        session_name: Some(name.to_owned()),
    })
}

/// A plugin in the session `s` that knows one tab for each terminal.
fn plugin(ids: &[u32]) -> State {
    let mut p = State::default();
    p.load(map(&[]), None, "uuid".to_owned());
    p.got_permissions = true;
    p.handle_event(session("s"), BAR);
    p.handle_event(Event::PaneUpdate(panes(ids)), BAR);
    p.handle_event(Event::TabUpdate(tabs(ids.len(), 0)), BAR);
    p
}

fn quiet(render: bool) -> Outcome {
    Outcome {
        render,
        actions: vec![],
    }
}

fn title(p: &State, position: usize, id: u32) -> Option<String> {
    find_text(&p.state.tab_name_overrides, position, id).cloned()
}

fn project(p: &State, position: usize, id: u32) -> Option<String> {
    find_text(&p.state.tab_name_fallbacks, position, id).cloned()
}

#[test]
fn a_title_is_given_to_the_tab_of_its_pane() {
    let mut p = plugin(&[1, 2]);
    p.state.cache_mask = None;
    let sent = message(
        "title",
        Some("●"),
        &[("pane_id", "2"), ("session", "s"), ("fallback", "proj")],
    );
    assert_eq!(p.pipe(sent), quiet(true));
    assert_eq!(title(&p, 1, 2), Some("●".to_owned()));
    assert_eq!(project(&p, 1, 2), Some("proj".to_owned()));
    assert_eq!(p.state.cache_mask, Some(UpdateEventMask::Tab));
    assert_eq!(sanitize_pipe_title_payload("●".to_owned()), "●");
}

#[test]
fn the_same_title_again_changes_nothing() {
    let mut p = plugin(&[1]);
    let sent = || message("title", Some("●"), &[("pane_id", "1"), ("fallback", "x")]);
    assert!(p.pipe(sent()).render);
    p.state.cache_mask = None;
    assert_eq!(p.pipe(sent()), quiet(false));
    assert_eq!(p.state.cache_mask, None);
    assert_eq!(p.pipe(message("title", Some("●"), &[("pane_id", "1")])), quiet(false));
    let other = message("title", Some("●"), &[("pane_id", "1"), ("fallback", "y")]);
    assert_eq!(p.pipe(other), quiet(true));
    assert_eq!(project(&p, 0, 1), Some("y".to_owned()));
}

#[test]
fn an_empty_title_clears() {
    let mut p = plugin(&[1, 2]);
    p.pipe(message("title", Some("a"), &[("pane_id", "1"), ("fallback", "x")]));
    p.pipe(message("title", Some("b"), &[("pane_id", "2")]));
    assert_eq!(p.pipe(message("title", Some(""), &[("pane_id", "1")])), quiet(true));
    assert_eq!(title(&p, 0, 1), None);
    assert_eq!(project(&p, 0, 1), None);
    assert_eq!(p.state.tab_name_overrides.len(), 1);
    assert!(p.state.tab_name_fallbacks.is_empty());
    assert_eq!(title(&p, 1, 2), Some("b".to_owned()));
}

#[test]
fn an_empty_title_clears_without_a_known_tab() {
    let mut p = State::default();
    let mut inner = BTreeMap::new();
    inner.insert(7, "x".to_owned());
    p.state.tab_name_overrides.insert(0, inner);
    assert_eq!(p.pipe(message("title", Some(""), &[("pane_id", "7")])), quiet(true));
    assert!(p.state.tab_name_overrides.is_empty());
    assert_eq!(p.state.cache_mask, Some(UpdateEventMask::Tab));

    let mut p = plugin(&[1]);
    p.pipe(message("title", Some("a"), &[("pane_id", "7")]));
    p.pipe(message("title", Some("b"), &[("pane_id", "8")]));
    assert_eq!(p.pipe(message("title", Some(""), &[("pane_id", "7")])), quiet(true));
    assert_eq!(p.pending_pipe_overrides.len(), 1);
    assert_eq!(p.pending_pipe_overrides[0].pane_id, 8);
}

#[test]
fn messages_for_other_sessions_are_left_alone() {
    let mut p = plugin(&[1]);
    let sent = message("title", Some("a"), &[("pane_id", "1"), ("session", "other")]);
    assert_eq!(p.pipe(sent), quiet(false));
    assert_eq!(title(&p, 0, 1), None);
    let sent = message("focus", None, &[("pane_id", "1"), ("session", "other")]);
    assert_eq!(p.pipe(sent), quiet(false));
    p.state.mode.session_name = None;
    let sent = message("title", Some("a"), &[("pane_id", "1"), ("session", "other")]);
    assert_eq!(p.pipe(sent), quiet(true));
}

#[test]
fn a_title_without_a_pane_is_dropped() {
    let mut p = plugin(&[1]);
    for args in [vec![], vec![("pane_id", "x")], vec![("pane_id", "4294967296")]] {
        assert_eq!(p.pipe(message("title", Some("a"), &args)), quiet(false));
        assert_eq!(p.pipe(message("title", Some(""), &args)), quiet(false));
    }
    assert_eq!(p.pipe(message("title", None, &[("pane_id", "1")])), quiet(false));
    assert!(p.state.tab_name_overrides.is_empty());
    assert!(p.pending_pipe_overrides.is_empty());
}

#[test]
fn a_title_waits_for_its_pane() {
    let mut p = plugin(&[1]);
    p.pipe(message("title", Some("old"), &[("pane_id", "7")]));
    p.pipe(message("title", Some("other"), &[("pane_id", "8")]));
    let sent = message("title", Some("new"), &[("pane_id", "7"), ("fallback", "x")]);
    assert_eq!(p.pipe(sent), quiet(false));
    assert_eq!(
        p.pending_pipe_overrides,
        vec![
            PendingTitle {
                pane_id: 8,
                title: "other".to_owned(),
                project: None,
            },
            PendingTitle {
                pane_id: 7,
                title: "new".to_owned(),
                project: Some("x".to_owned()),
            },
        ]
    );
    p.handle_event(Event::PaneUpdate(panes(&[1, 7])), BAR);
    p.handle_event(Event::TabUpdate(tabs(2, 0)), BAR);
    assert_eq!(title(&p, 1, 7), Some("new".to_owned()));
    assert_eq!(project(&p, 1, 7), Some("x".to_owned()));
    assert_eq!(p.pending_pipe_overrides.len(), 1);
}

#[test]
fn an_empty_title_that_waited_clears() {
    let mut p = plugin(&[1]);
    p.pipe(message("title", Some("a"), &[("pane_id", "1"), ("fallback", "x")]));
    p.pending_pipe_overrides.push(PendingTitle {
        pane_id: 1,
        title: String::new(),
        project: None,
    });
    p.resolve_pending_overrides();
    assert!(p.state.tab_name_overrides.is_empty());
    assert_eq!(project(&p, 0, 1), Some("x".to_owned()));
    assert!(p.pending_pipe_overrides.is_empty());
}

#[test]
fn focus_moves_to_the_pane() {
    let mut p = plugin(&[1]);
    let sent = message("focus", None, &[("pane_id", "1"), ("session", "s")]);
    assert_eq!(
        p.pipe(sent),
        Outcome {
            render: false,
            actions: vec![Action::FocusTerminalPane(1)],
        }
    );
    assert_eq!(p.pipe(message("focus", None, &[])), quiet(false));
}

#[test]
fn other_messages_are_for_the_widgets() {
    let mut p = plugin(&[1]);
    assert_eq!(
        p.pipe(message("zjstatus", Some("zjstatus::rerun::x"), &[])),
        Outcome {
            render: false,
            actions: vec![Action::Protocol("zjstatus::rerun::x".to_owned())],
        }
    );
    assert_eq!(p.pipe(message("zjstatus", None, &[])), quiet(false));
}

#[test]
fn events_wait_for_the_permissions() {
    let mut p = State::default();
    assert_eq!(p.update(Event::Timer), vec![]);
    assert_eq!(p.update(Event::SessionUpdate), vec![]);
    assert_eq!(p.update(Event::PermissionRequestResult(false)), vec![]);
    assert_eq!(
        p.update(Event::PermissionRequestResult(true)),
        vec![
            Event::PermissionRequestResult(false),
            Event::SessionUpdate,
            Event::Timer,
            Event::PermissionRequestResult(true),
        ]
    );
    assert!(p.got_permissions && p.pending_events.is_empty());
    assert_eq!(p.update(Event::Other), vec![Event::Other]);
}

#[test]
fn due_events_are_handled_in_order() {
    let mut p = State::default();
    assert_eq!(p.receive(session("first"), BAR), quiet(false));
    assert_eq!(p.receive(Event::PaneUpdate(panes(&[1])), BAR), quiet(false));
    assert_eq!(p.receive(session("second"), BAR), quiet(false));
    assert!(p.state.panes.panes.is_empty());
    assert_eq!(
        p.receive(Event::PermissionRequestResult(true), BAR),
        Outcome {
            render: false,
            actions: vec![Action::HideFrames, Action::SetSelectable(false)],
        }
    );
    assert_eq!(p.state.mode.session_name, Some("first".to_owned()));
    assert_eq!(p.state.panes, panes(&[1]));
    assert_eq!(p.receive(session("third"), BAR), quiet(true));
}

#[test]
fn permissions_make_the_bar_unselectable() {
    let mut p = plugin(&[1]);
    assert_eq!(
        p.handle_event(Event::PermissionRequestResult(true), BAR),
        Outcome {
            render: false,
            actions: vec![Action::SetSelectable(false)],
        }
    );
}

#[test]
fn the_mouse_reaches_the_bar_in_the_focused_tab_only() {
    let mut p = plugin(&[1]);
    assert!(p.state.is_current_tab_plugin);
    let click = Mouse::LeftClick(0, 3);
    assert_eq!(
        p.handle_event(Event::Mouse(click), BAR).actions,
        vec![Action::HandleMouse(click)]
    );
    p.refresh_is_current_tab_plugin(5);
    assert_eq!(p.handle_event(Event::Mouse(click), BAR), quiet(false));
}

#[test]
fn known_tabs_and_panes_change_nothing() {
    let mut p = plugin(&[1, 2]);
    p.state.cache_mask = None;
    assert_eq!(p.handle_event(Event::PaneUpdate(panes(&[1, 2])), BAR), quiet(false));
    assert_eq!(p.handle_event(Event::TabUpdate(tabs(2, 0)), BAR), quiet(false));
    assert_eq!(p.handle_event(Event::SessionUpdate, BAR), quiet(false));
    assert_eq!(p.handle_event(Event::Other, BAR), quiet(false));
    assert_eq!(p.state.cache_mask, None);
    let outcome = p.handle_event(Event::PaneUpdate(panes(&[1, 3])), BAR);
    assert_eq!(
        outcome,
        Outcome {
            render: true,
            actions: vec![Action::HideFrames],
        }
    );
}

#[test]
fn titles_follow_their_panes_when_tabs_close() {
    let mut p = plugin(&[1, 2, 3]);
    p.pipe(message("title", Some("a"), &[("pane_id", "1")]));
    p.pipe(message("title", Some("c"), &[("pane_id", "3"), ("fallback", "x")]));
    p.handle_event(Event::PaneUpdate(panes(&[2, 3])), BAR);
    p.handle_event(Event::TabUpdate(tabs(2, 0)), BAR);
    assert_eq!(title(&p, 1, 3), Some("c".to_owned()));
    assert_eq!(project(&p, 1, 3), Some("x".to_owned()));
    assert_eq!(title(&p, 2, 3), None);
    assert_eq!(title(&p, 0, 1), None);
    assert_eq!(p.state.tab_name_overrides.len(), 1);
    assert_eq!(p.find_tab_for_pane(3), Some(1));
    assert_eq!(p.find_tab_for_pane(1), None);
    assert_eq!(p.find_tab_for_pane(BAR), None);
}

#[test]
fn titles_follow_their_panes_when_the_tabs_are_told_first() {
    let mut p = plugin(&[1, 7]);
    p.pipe(message("title", Some("x"), &[("pane_id", "7"), ("fallback", "proj")]));
    p.handle_event(Event::TabUpdate(tabs(1, 0)), BAR);
    assert!(p.state.tab_name_overrides.is_empty());
    assert!(p.pending_pipe_overrides.is_empty());
    assert_eq!(
        p.stray_titles,
        vec![PendingTitle {
            pane_id: 7,
            title: "x".to_owned(),
            project: Some("proj".to_owned()),
        }]
    );
    p.handle_event(Event::PaneUpdate(panes(&[7])), BAR);
    let mut inner = BTreeMap::new();
    inner.insert(7, "x".to_owned());
    let mut expected = BTreeMap::new();
    expected.insert(0, inner);
    assert_eq!(p.state.tab_name_overrides, expected);
    assert_eq!(project(&p, 0, 7), Some("proj".to_owned()));
    assert!(p.stray_titles.is_empty());
}

#[test]
fn titles_of_closed_panes_are_given_up() {
    let mut p = plugin(&[1, 7]);
    p.pipe(message("title", Some("a"), &[("pane_id", "1"), ("fallback", "x")]));
    p.pipe(message("title", Some("b"), &[("pane_id", "7"), ("fallback", "y")]));
    p.handle_event(Event::PaneUpdate(panes(&[2, 7])), BAR);
    assert_eq!(title(&p, 0, 1), None);
    assert_eq!(project(&p, 0, 1), None);
    assert!(p.stray_titles.is_empty());
    assert!(p.pending_pipe_overrides.is_empty());
    p.handle_event(Event::TabUpdate(tabs(1, 0)), BAR);
    assert_eq!(p.stray_titles.len(), 1);
    p.handle_event(Event::PaneUpdate(panes(&[2])), BAR);
    assert!(p.stray_titles.is_empty());
    assert!(p.pending_pipe_overrides.is_empty());
    assert!(p.state.tab_name_overrides.is_empty());
    assert!(p.state.tab_name_fallbacks.is_empty());
    assert!(p.titles_to_save().is_empty());
}

#[test]
fn a_title_of_no_listed_pane_is_given_up_with_the_next_tabs() {
    let mut p = plugin(&[1]);
    let mut inner = BTreeMap::new();
    inner.insert(9, "x".to_owned());
    p.state.tab_name_overrides.insert(0, inner);
    p.handle_event(Event::TabUpdate(tabs(2, 0)), BAR);
    assert!(p.state.tab_name_overrides.is_empty());
    assert!(p.stray_titles.is_empty());
}

#[test]
fn titles_wait_while_the_panes_are_told_first() {
    let mut p = plugin(&[1, 7]);
    p.pipe(message("title", Some("x"), &[("pane_id", "7")]));
    p.handle_event(Event::PaneUpdate(panes(&[1, 2, 7])), BAR);
    assert_eq!(title(&p, 1, 7), None);
    assert_eq!(p.stray_titles.len(), 1);
    p.handle_event(Event::TabUpdate(tabs(3, 0)), BAR);
    assert_eq!(title(&p, 2, 7), Some("x".to_owned()));
    assert!(p.stray_titles.is_empty());
}

#[test]
fn a_newer_title_stays_when_its_pane_moves() {
    let mut p = plugin(&[1, 7]);
    p.pipe(message("title", Some("old"), &[("pane_id", "7")]));
    p.handle_event(Event::PaneUpdate(panes(&[7, 1])), BAR);
    assert_eq!(title(&p, 0, 7), Some("old".to_owned()));
    p.pipe(message("title", Some("new"), &[("pane_id", "7")]));
    p.handle_event(Event::TabUpdate(tabs(2, 1)), BAR);
    assert_eq!(title(&p, 0, 7), Some("new".to_owned()));
    assert_eq!(title(&p, 1, 7), None);
    assert_eq!(p.state.tab_name_overrides.len(), 1);
}

#[test]
fn a_title_that_waits_is_newer_than_a_stray() {
    let mut p = plugin(&[1, 7]);
    p.pipe(message("title", Some("old"), &[("pane_id", "7"), ("fallback", "x")]));
    p.handle_event(Event::TabUpdate(tabs(1, 0)), BAR);
    p.pipe(message("title", Some("new"), &[("pane_id", "7")]));
    p.keep_unplaced_titles();
    assert_eq!(p.stray_titles.len(), 1);
    assert_eq!(p.pending_pipe_overrides.len(), 1);
    let to_save = p.titles_to_save();
    assert_eq!(to_save.len(), 1);
    assert_eq!(to_save[0].title, "new");
    p.handle_event(Event::PaneUpdate(panes(&[7])), BAR);
    assert_eq!(title(&p, 0, 7), Some("new".to_owned()));
    assert_eq!(project(&p, 0, 7), Some("x".to_owned()));
}

#[test]
fn an_empty_title_clears_a_stray() {
    let mut p = plugin(&[1, 7]);
    p.pipe(message("title", Some("x"), &[("pane_id", "7")]));
    p.handle_event(Event::TabUpdate(tabs(1, 0)), BAR);
    assert_eq!(p.titles_to_save().len(), 1);
    assert_eq!(p.pipe(message("title", Some(""), &[("pane_id", "7")])), quiet(true));
    assert!(p.stray_titles.is_empty());
    p.handle_event(Event::PaneUpdate(panes(&[7])), BAR);
    assert!(p.state.tab_name_overrides.is_empty());
}

#[test]
fn a_spinner_keeps_one_timer_going() {
    let mut p = plugin(&[1]);
    assert_eq!(p.handle_event(Event::Timer, BAR), quiet(false));
    let spin = || message("title", Some("{spin}"), &[("pane_id", "1")]);
    let timeout = || vec![Action::SetTimeout(Delay::Millis(300))];
    assert_eq!(p.pipe(spin()).actions, timeout());
    assert!(p.timer_active && p.has_spin());
    assert_eq!(p.pipe(spin()), quiet(false));
    p.state.spinner_idx = usize::MAX;
    let outcome = p.handle_event(Event::Timer, BAR);
    assert_eq!(
        outcome,
        Outcome {
            render: true,
            actions: timeout(),
        }
    );
    assert_eq!(p.state.spinner_idx, 0);
    p.pipe(message("title", Some(""), &[("pane_id", "1")]));
    assert_eq!(p.handle_event(Event::Timer, BAR), quiet(false));
    assert!(!p.timer_active);
}

#[test]
fn commands_are_polled_in_the_focused_tab() {
    let mut p = State::default();
    let config = map(&[("command_x_command", "date"), ("command_x_interval", "5")]);
    p.load(config, None, "uuid".to_owned());
    p.handle_event(Event::PaneUpdate(panes(&[1])), BAR);
    let outcome = p.handle_event(Event::TabUpdate(tabs(1, 0)), BAR);
    let timeout = || vec![Action::SetTimeout(Delay::Seconds(5))];
    assert_eq!(outcome.actions, timeout());
    let outcome = p.handle_event(Event::Timer, BAR);
    assert_eq!(
        outcome,
        Outcome {
            render: true,
            actions: timeout(),
        }
    );
    assert_eq!(p.state.cache_mask, Some(UpdateEventMask::Command));
    p.state.is_current_tab_plugin = false;
    assert!(!p.should_poll_commands());
    assert_eq!(p.handle_event(Event::Timer, BAR), quiet(false));
}

#[test]
fn the_shortest_interval_counts() {
    let secs = |entries: &[(&str, &str)]| command_poll_interval_secs_from_config(&map(entries));
    assert_eq!(secs(&[]), 1);
    assert_eq!(secs(&[("command_a_interval", "10"), ("command_b_interval", "+3")]), 3);
    assert_eq!(secs(&[("command_a_interval", "0"), ("command_b_interval", "-4")]), 1);
    assert_eq!(secs(&[("command_a_interval", "x"), ("other_interval", "2")]), 1);
    assert_eq!(secs(&[("command_a_interval", "9223372036854775807")]), 9223372036854775807);
    assert_eq!(secs(&[("command_a_interval", "9223372036854775808")]), 1);
    assert!(has_command_widgets(&map(&[("command_x_command", "date")])));
    assert!(!has_command_widgets(&map(&[("command_x_interval", "1"), ("x_command", "y")])));
}

#[test]
fn results_of_commands_are_kept_by_name() {
    let mut p = plugin(&[1]);
    let result = |out: Vec<u8>, context: &[(&str, &str)]| {
        Event::RunCommandResult(Some(3), out, vec![0xff, 0xfe], map(context))
    };
    let outcome = p.handle_event(result(b"h\xc3\xa9llo".to_vec(), &[("name", "x")]), BAR);
    assert_eq!(outcome, quiet(true));
    let kept = p.state.command_results.get("x").unwrap();
    assert_eq!(kept.exit_code, Some(3));
    assert_eq!(kept.stdout, "héllo");
    assert_eq!(kept.stderr, "");
    assert_eq!(kept.context.get("name"), Some(&"x".to_owned()));
    assert_eq!(p.state.cache_mask, Some(UpdateEventMask::Command));
    assert_eq!(p.handle_event(result(vec![], &[]), BAR), quiet(false));
    assert_eq!(p.state.command_results.len(), 1);
    p.state.is_current_tab_plugin = false;
    assert_eq!(p.handle_event(result(vec![], &[("name", "y")]), BAR), quiet(false));
}

#[test]
fn a_new_instance_is_told_the_titles() {
    let mut p = plugin(&[1, 2]);
    p.pipe(message("title", Some("a"), &[("pane_id", "1"), ("fallback", "x")]));
    p.pipe(message("title", Some("b"), &[("pane_id", "2"), ("fallback", "")]));
    let outcome = p.handle_event(Event::TabUpdate(tabs(3, 0)), BAR);
    let first = message(
        "title",
        Some("a"),
        &[("pane_id", "1"), ("session", "s"), ("fallback", "x")],
    );
    let second = message("title", Some("b"), &[("pane_id", "2"), ("session", "s")]);
    assert_eq!(outcome.actions, vec![Action::Send(first), Action::Send(second)]);
    assert_eq!(p.last_tab_count, 3);

    let mut other = plugin(&[1]);
    for action in outcome.actions {
        if let Action::Send(m) = action {
            other.pipe(m);
        }
    }
    assert_eq!(title(&other, 0, 1), Some("a".to_owned()));
    assert_eq!(project(&other, 0, 1), Some("x".to_owned()));
    assert_eq!(other.pending_pipe_overrides.len(), 1);
    assert_eq!(other.pending_pipe_overrides[0].title, "b");
}

#[test]
fn all_messages_give_all_titles() {
    let mut p = plugin(&[1, 2, 3]);
    p.pipe(message("title", Some("a"), &[("pane_id", "1"), ("fallback", "x")]));
    p.pipe(message("title", Some("c"), &[("pane_id", "3")]));
    let mut actions = vec![];
    p.broadcast_overrides(&mut actions);
    let mut other = plugin(&[1, 2, 3]);
    let mut render = false;
    for action in actions {
        if let Action::Send(m) = action {
            render = other.pipe(m).render;
        }
    }
    assert!(render);
    assert_eq!(other.state.tab_name_overrides, p.state.tab_name_overrides);
    assert_eq!(other.state.tab_name_fallbacks, p.state.tab_name_fallbacks);
}

#[test]
fn only_the_instance_in_the_focused_tab_tells_the_titles() {
    let mut p = plugin(&[1]);
    p.pipe(message("title", Some("a"), &[("pane_id", "1")]));
    p.state.is_current_tab_plugin = false;
    assert_eq!(p.handle_event(Event::TabUpdate(tabs(2, 1)), BAR).actions, vec![]);
    let mut p = plugin(&[1]);
    p.pipe(message("title", Some("a"), &[("pane_id", "1")]));
    p.state.mode.session_name = None;
    assert_eq!(p.handle_event(Event::TabUpdate(tabs(2, 0)), BAR).actions, vec![]);
}

#[test]
fn drawing_needs_permissions_and_a_configuration() {
    let mut p = State::default();
    p.load(map(&[]), Some("bad format".to_owned()), "uuid".to_owned());
    assert_eq!(p.render(80), Drawing::Nothing);
    p.got_permissions = true;
    assert_eq!(p.render(80), Drawing::Error("Error: bad format".to_owned()));
    assert_eq!(p.state.cols, 0);
    let mut p = plugin(&[1]);
    assert_eq!(p.render(80), Drawing::Bar);
    assert_eq!(p.state.cols, 80);
    assert_eq!(p.state.plugin_uuid, "uuid");
}

#[test]
fn titles_are_written_and_read_back() {
    let entry = |pane_id, title: &str, project: Option<&str>| PendingTitle {
        pane_id,
        title: title.to_owned(),
        project: project.map(|s| s.to_owned()),
    };
    assert_eq!(saved::path("main"), "/tmp/zjstatus-main.state");
    let entries = vec![
        entry(1, "🤖 #[fg=#ffdc00]{spin}#[fg=]", Some("a:b\n")),
        entry(u32::MAX, "12:", Some("")),
        entry(0, "x", None),
    ];
    assert_eq!(saved::write(&vec![entry(7, "é:", None)]), "1:72:é:0:");
    assert_eq!(saved::write(&vec![entry(7, "a", Some("b"))]), "1:71:a2:=b");
    assert_eq!(saved::parse(&saved::write(&entries)), Some(entries));
    assert_eq!(saved::parse(""), Some(vec![]));
    for bad in ["1:7", "1:71:a", "1:71:a1:b", "1:x1:a0:", "x", ":", "9:7", "5:429491:a0:x"] {
        assert_eq!(saved::parse(bad), None);
    }
}

#[test]
fn saved_titles_come_back() {
    let mut p = plugin(&[1, 2]);
    assert_eq!(
        p.save(),
        Some(("/tmp/zjstatus-s.state".to_owned(), String::new()))
    );
    p.pipe(message("title", Some("{spin}"), &[("pane_id", "1"), ("fallback", "x")]));
    p.pipe(message("title", Some("b"), &[("pane_id", "2")]));
    let (_, content) = p.save().unwrap();
    let mut later = plugin(&[2]);
    later.pipe(message("title", Some("newer"), &[("pane_id", "2")]));
    let outcome = later.restore(&content);
    assert_eq!(outcome, quiet(true));
    assert_eq!(title(&later, 0, 2), Some("newer".to_owned()));
    assert_eq!(later.pending_pipe_overrides.len(), 1);
    let (_, content) = later.save().unwrap();
    assert_eq!(
        saved::parse(&content),
        Some(vec![
            PendingTitle {
                pane_id: 2,
                title: "newer".to_owned(),
                project: None,
            },
            PendingTitle {
                pane_id: 1,
                title: "{spin}".to_owned(),
                project: Some("x".to_owned()),
            },
        ])
    );
    later.handle_event(Event::PaneUpdate(panes(&[2, 1])), BAR);
    let outcome = later.handle_event(Event::TabUpdate(tabs(2, 0)), BAR);
    assert_eq!(title(&later, 1, 1), Some("{spin}".to_owned()));
    assert_eq!(project(&later, 1, 1), Some("x".to_owned()));
    assert!(outcome
        .actions
        .contains(&Action::SetTimeout(Delay::Millis(300))));
    assert_eq!(later.restore("nonsense"), quiet(false));
    later.pending_pipe_overrides.push(PendingTitle {
        pane_id: 9,
        title: String::new(),
        project: None,
    });
    assert_eq!(later.titles_to_save().len(), 2);
    later.state.mode.session_name = None;
    assert_eq!(later.save(), None);
}

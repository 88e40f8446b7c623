use std::collections::BTreeMap;

use zjtabs::data::{PaneInfo, PaneManifest, TabInfo};
use zjtabs::state::TabTexts;
use zjtabs::tab_name::{
    find_text, is_default_tab_name, resolve_tab_name, strip_spinner_prefix,
};

fn pane(id: u32, title: &str, focused: bool) -> PaneInfo {
    PaneInfo {
        id,
        title: title.to_owned(),
        is_focused: focused,
        ..PaneInfo::default()
    }
}

fn plugin(id: u32, title: &str) -> PaneInfo {
    PaneInfo {
        id,
        is_plugin: true,
        title: title.to_owned(),
        is_focused: true,
        ..PaneInfo::default()
    }
}

fn manifest(panes: Vec<PaneInfo>) -> PaneManifest {
    let mut m = BTreeMap::new();
    m.insert(0usize, panes);
    PaneManifest { panes: m }
}

fn tab(name: &str) -> TabInfo {
    TabInfo {
        name: name.to_owned(),
        ..TabInfo::default()
    }
}

fn texts(entries: &[(u32, &str)]) -> TabTexts {
    let mut inner = BTreeMap::new();
    for (id, s) in entries {
        inner.insert(*id, s.to_string());
    }
    let mut m = BTreeMap::new();
    m.insert(0usize, inner);
    m
}

#[test]
fn a_leading_sign_is_no_part_of_a_title() {
    assert_eq!(strip_spinner_prefix("⠋ build"), ("build".to_owned(), true));
    assert_eq!(strip_spinner_prefix("●  done"), ("done".to_owned(), true));
    assert_eq!(strip_spinner_prefix("build"), ("build".to_owned(), false));
    assert_eq!(strip_spinner_prefix("étude"), ("étude".to_owned(), false));
    assert_eq!(strip_spinner_prefix("9 lives"), ("9 lives".to_owned(), false));
    assert_eq!(strip_spinner_prefix(""), ("".to_owned(), false));
}

#[test]
fn default_names_are_a_number_behind_a_hash() {
    assert!(is_default_tab_name("Tab #1"));
    assert!(is_default_tab_name("Tab #12"));
    assert!(!is_default_tab_name("Tab #"));
    assert!(!is_default_tab_name("Tab #1a"));
    assert!(!is_default_tab_name("Tab #+1"));
    assert!(!is_default_tab_name("work"));
}

#[test]
fn a_named_tab_keeps_its_name() {
    let panes = manifest(vec![pane(1, "vim", true)]);
    let none = BTreeMap::new();
    assert_eq!(resolve_tab_name(&tab("work"), &panes, &none, &none, 0), "work");
}

#[test]
fn an_unnamed_tab_shows_its_focused_terminal() {
    let none = BTreeMap::new();
    let panes = manifest(vec![
        plugin(9, "bar"),
        pane(1, "vim", false),
        pane(2, "⠋ cargo", true),
    ]);
    assert_eq!(resolve_tab_name(&tab("Tab #1"), &panes, &none, &none, 0), "cargo");
    let panes = manifest(vec![plugin(9, "bar"), pane(1, " vim ", false)]);
    assert_eq!(resolve_tab_name(&tab("Tab #1"), &panes, &none, &none, 0), "vim");
    let panes = manifest(vec![pane(1, "  ", true)]);
    assert_eq!(resolve_tab_name(&tab("Tab #1"), &panes, &none, &none, 0), "Tab #1");
    assert_eq!(
        resolve_tab_name(&tab("Tab #1"), &PaneManifest::default(), &none, &none, 0),
        "Tab #1"
    );
}

#[test]
fn a_title_is_shown_with_its_project() {
    let panes = manifest(vec![pane(1, "", true)]);
    let titles = texts(&[(1, "🤖 {spin}")]);
    let projects = texts(&[(1, "zjstatus")]);
    for (idx, frame) in [(0, "✦"), (1, "✶"), (2, "✽"), (3, "✶"), (4, "✦")] {
        assert_eq!(
            resolve_tab_name(&tab("Tab #1"), &panes, &titles, &projects, idx),
            format!("🤖 {} zjstatus", frame)
        );
    }
}

#[test]
fn a_title_is_shown_with_the_title_of_its_pane() {
    let panes = manifest(vec![pane(1, "● thinking", true)]);
    let titles = texts(&[(1, "●")]);
    let none = BTreeMap::new();
    assert_eq!(resolve_tab_name(&tab("work"), &panes, &titles, &none, 0), "🤖 ● thinking");
    let projects = texts(&[(1, "p")]);
    assert_eq!(resolve_tab_name(&tab("work"), &panes, &titles, &projects, 0), "🤖 ● p thinking");
}

#[test]
fn titles_of_several_panes_are_chained() {
    let panes = manifest(vec![pane(1, "", true), pane(2, "", false)]);
    let titles = texts(&[(1, "🤖 {spin}"), (2, "🤖 ●")]);
    let projects = texts(&[(1, "project-name"), (2, "other")]);
    assert_eq!(
        resolve_tab_name(&tab("Tab #1"), &panes, &titles, &projects, 0),
        "🤖 ✦ ● (+1) | project-name"
    );
}

#[test]
fn the_pane_with_the_spinner_leads() {
    let panes = manifest(vec![pane(1, "", true), pane(2, "", false)]);
    let titles = texts(&[(1, "●"), (2, "{spin}")]);
    let projects = texts(&[(1, "one"), (2, "two")]);
    assert_eq!(
        resolve_tab_name(&tab("Tab #1"), &panes, &titles, &projects, 2),
        "🤖 ● ✽ (+1) | two"
    );
    let none = BTreeMap::new();
    assert_eq!(resolve_tab_name(&tab("Tab #1"), &panes, &titles, &none, 2), "🤖 ● ✽ (+1)");
}

#[test]
fn texts_are_found_by_tab_and_pane() {
    let titles = texts(&[(1, "a")]);
    assert_eq!(find_text(&titles, 0, 1), Some(&"a".to_owned()));
    assert_eq!(find_text(&titles, 0, 2), None);
    assert_eq!(find_text(&titles, 1, 1), None);
}

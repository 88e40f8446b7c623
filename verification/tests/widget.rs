use std::collections::BTreeMap;

use zjtabs::data::{InputMode, PaneInfo, TabInfo};
use zjtabs::state::ZellijState;
use zjtabs::text_map::TextMap;
use zjtabs::widgets::bar::click_targets;
use zjtabs::widgets::layout::narrow_window;
use zjtabs::widgets::tabs::TabsWidget;
use zjtabs::widgets::widget::Widget;
use zjtabs::width::{measure_text_width, truncate_text};

fn widget(entries: &[(&str, &str)]) -> TabsWidget {
    let mut config = TextMap::new();
    for (key, value) in entries {
        config.insert(key.to_string(), value.to_string());
    }
    TabsWidget::new(&config)
}

fn state(names: &[&str], active: usize, cols: usize) -> ZellijState {
    let mut s = ZellijState::new("id".to_owned());
    s.cols = cols;
    s.tabs = names
        .iter()
        .enumerate()
        .map(|(position, name)| TabInfo {
            position,
            name: name.to_string(),
            active: position == active,
            ..TabInfo::default()
        })
        .collect();
    s
}

const PLAIN: &[(&str, &str)] = &[
    ("tab_normal", " {name} "),
    ("tab_active", "({name})"),
    ("tab_separator", "|"),
    ("tab_truncate_start_format", "<{count}"),
    ("tab_truncate_end_format", ">{count}"),
];

fn with(more: &[(&'static str, &'static str)]) -> Vec<(&'static str, &'static str)> {
    let mut all = PLAIN.to_vec();
    all.extend_from_slice(more);
    all
}

#[test]
fn the_bar_shows_every_tab() {
    let w = widget(PLAIN);
    assert_eq!(w.process("tabs", &state(&["a", "b", "c"], 1, 0)), " a |(b)| c ");
    assert_eq!(w.process("tabs", &state(&["a", "b", "c"], 1, 80)), " a |(b)| c ");
    assert_eq!(w.process("tabs", &state(&[], 0, 80)), "");
}

#[test]
fn formats_fall_back_on_the_general_ones() {
    let w = widget(&[("tab_normal", "{name}")]);
    assert_eq!(w.process("tabs", &state(&["a", "b"], 0, 0)), "a | b");
    let w = widget(&[
        ("tab_normal", "{name}"),
        ("tab_active", "*{name}"),
        ("tab_active_fullscreen", "F{name}"),
        ("tab_active_sync", "S{name}"),
        ("tab_normal_sync", "s{name}"),
        ("tab_rename", "R{name}"),
    ]);
    let mut s = state(&["a", "b"], 0, 0);
    assert_eq!(w.process("tabs", &s), "*a | b");
    s.tabs[0].is_sync_panes_active = true;
    s.tabs[1].is_sync_panes_active = true;
    assert_eq!(w.process("tabs", &s), "Sa | sb");
    s.tabs[0].is_fullscreen_active = true;
    s.tabs[1].is_fullscreen_active = true;
    assert_eq!(w.process("tabs", &s), "Fa | b");
    s.mode.mode = InputMode::RenameTab;
    s.tabs[0].name = String::new();
    assert_eq!(w.process("tabs", &s), "REnter name... | b");
}

#[test]
fn marks_are_replaced() {
    let w = widget(&[
        (
            "tab_normal",
            "{index}:{name}:{floating_total_count}{fullscreen_indicator}{sync_indicator}{floating_indicator}",
        ),
        ("tab_fullscreen_indicator", "F"),
        ("tab_sync_indicator", "S"),
        ("tab_floating_indicator", "O"),
    ]);
    let mut s = state(&["a"], 0, 0);
    assert_eq!(w.process("tabs", &s), "1:a:0");
    s.tabs[0].is_fullscreen_active = true;
    s.tabs[0].is_sync_panes_active = true;
    let floats = PaneInfo {
        is_floating: true,
        ..PaneInfo::default()
    };
    let stays = PaneInfo::default();
    let mut panes = BTreeMap::new();
    panes.insert(0usize, vec![floats.clone(), stays, floats]);
    s.panes.panes = panes;
    assert_eq!(w.process("tabs", &s), "1:a:2FSO");
    let bare = widget(&[("tab_normal", "{name}{sync_indicator}")]);
    assert_eq!(bare.process("tabs", &s), "a{sync_indicator}");
}

#[test]
fn names_take_the_color_of_their_format_again() {
    let w = widget(&[("tab_normal", "#[fg=red]{name}")]);
    let s = state(&["x#[fg=#000001]y#[fg=]z"], 9, 0);
    assert_eq!(
        w.process("tabs", &s),
        "\x1b[31mx\x1b[38;2;0;0;1my\x1b[31mz\x1b[0m"
    );
}

#[test]
fn no_more_tabs_are_shown_than_configured() {
    let w = widget(&with(&[("tab_display_count", "3")]));
    let names = ["a", "b", "c", "d", "e"];
    assert_eq!(w.process("tabs", &state(&names, 2, 0)), "<1 b |(c)| d >1");
    assert_eq!(w.process("tabs", &state(&names, 0, 0)), "(a)| b | c >2");
    assert_eq!(w.process("tabs", &state(&names, 4, 0)), "<2 c | d |(e)");
    let w = widget(&with(&[("tab_display_count", "many")]));
    assert_eq!(w.process("tabs", &state(&["a", "b"], 0, 0)), "(a)| b ");
}

#[test]
fn long_names_are_cut_off_to_fit() {
    let w = widget(PLAIN);
    let s = state(&["abcdef", "gh"], 0, 10);
    assert_eq!(w.max_tab_name_width(&s, 0, 2), 6);
    assert_eq!(w.window_render_width(&s, 0, 2, "|", None), Some(13));
    assert_eq!(w.window_render_width(&s, 0, 2, "|", Some(1)), Some(7));
    assert_eq!(w.resolve_name_width_limit(&s, 0, 2, "|"), Some(Some(3)));
    assert_eq!(w.process("tabs", &s), "(abc)| gh ");
    let wide = state(&["ab\u{4e2d}\u{6587}", "c"], 0, 10);
    assert_eq!(w.process("tabs", &wide), "(ab\u{4e2d})| c ");
}

#[test]
fn tabs_far_from_the_focus_are_left_out() {
    let w = widget(PLAIN);
    let names = ["a", "b", "c", "d", "e"];
    let s = state(&names, 1, 13);
    let layout = w.tab_render_layout(&s);
    assert_eq!((layout.window_start, layout.window_end), (0, 3));
    assert_eq!(w.process("tabs", &s), " a |(b)| c >2");
    let s = state(&names, 4, 8);
    assert_eq!(w.process("tabs", &s), "<4(e)");
    let s = state(&["abc"], 0, 2);
    assert_eq!(w.process("tabs", &s), "(a)");
}

#[test]
fn a_click_switches_to_the_tab_under_it() {
    let w = widget(PLAIN);
    let s = state(&["a", "b", "c"], 1, 0);
    for (pos, tab) in [(0, 1), (3, 1), (4, 2), (7, 2), (8, 3), (10, 3)] {
        assert_eq!(w.process_click("tabs", &s, pos), vec![tab]);
    }
    assert_eq!(w.process_click("tabs", &s, 11), Vec::<u32>::new());
}

#[test]
fn a_click_without_focus_does_nothing() {
    let w = widget(PLAIN);
    let s = state(&["a", "b", "c"], 9, 0);
    assert_eq!(w.process_click("tabs", &s, 0), Vec::<u32>::new());
}

#[test]
fn a_click_on_a_marker_moves_the_focus_by_one() {
    let w = widget(&with(&[("tab_display_count", "3")]));
    let names = ["a", "b", "c", "d", "e"];
    let s = state(&names, 2, 0);
    assert_eq!(w.process("tabs", &s), "<1 b |(c)| d >1");
    assert_eq!(w.process_click("tabs", &s, 0)[0], 2);
    assert_eq!(w.process_click("tabs", &s, 14), vec![4]);
    assert_eq!(w.process_click("tabs", &s, 16), Vec::<u32>::new());
}

#[test]
fn titles_are_shown_in_the_bar() {
    let w = widget(PLAIN);
    let mut s = state(&["Tab #1", "b"], 0, 0);
    let mut inner = BTreeMap::new();
    inner.insert(7u32, "🤖 {spin}".to_owned());
    s.tab_name_overrides.insert(0, inner);
    assert_eq!(w.process("tabs", &s), "(🤖 ✦)| b ");
    s.spinner_idx = 2;
    assert_eq!(w.process("tabs", &s), "(🤖 ✽)| b ");
}

#[test]
fn the_widget_needs_no_ticks() {
    let w = widget(PLAIN);
    w.tick(&state(&["a"], 0, 0));
    assert_eq!(w.display_count(), None);
    assert_eq!(w.separator_string(), "|");
    assert_eq!(w.render_truncate_start(12), "<12");
    assert_eq!(w.render_truncate_end(0), ">0");
}

#[test]
fn clicks_are_told_apart_by_widths_alone() {
    let widths = vec![4, 4, 3];
    let positions = vec![1, 2, 3];
    let at = |pos| click_targets(Some(2), &widths, &positions, Some(2), 2, 5, pos);
    assert_eq!(at(0), vec![2, 4]);
    assert_eq!(at(2), vec![2, 2, 4]);
    assert_eq!(at(5), vec![2]);
    assert_eq!(at(6), vec![3, 4]);
    assert_eq!(at(12), vec![4, 4]);
    assert_eq!(at(15), vec![4]);
    assert_eq!(at(16), Vec::<u32>::new());
    assert_eq!(click_targets(None, &vec![], &vec![], Some(1), 0, 1, 0), vec![1]);
}

#[test]
fn windows_shrink_at_the_far_end() {
    assert_eq!(narrow_window(0, 5, 1), Some((0, 4)));
    assert_eq!(narrow_window(0, 5, 2), Some((1, 5)));
    assert_eq!(narrow_window(0, 5, 4), Some((1, 5)));
    assert_eq!(narrow_window(3, 4, 3), None);
}

#[test]
fn widths_are_those_on_the_screen() {
    assert_eq!(measure_text_width("abc"), 3);
    assert_eq!(measure_text_width("\x1b[31mabc\x1b[0m"), 3);
    assert_eq!(measure_text_width("\u{4e2d}"), 2);
    assert_eq!(truncate_text("abc", 2), "ab");
    assert_eq!(truncate_text("abc", 0), "");
    assert_eq!(truncate_text("abc", 3), "abc");
    assert_eq!(truncate_text("\x1b[31mabc\x1b[0m", 2), "\x1b[31mab\x1b[0m");
    assert_eq!(truncate_text("\u{4e2d}\u{6587}", 3), "\u{4e2d}");
}

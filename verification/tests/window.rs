use zjtabs::data::TabInfo;
use zjtabs::window::{find_active, get_tab_window, get_tab_window_indices};

fn tab(active: bool, name: &str) -> TabInfo {
    TabInfo {
        active,
        name: name.to_owned(),
        ..TabInfo::default()
    }
}

fn tabs(names: &[(bool, &str)]) -> Vec<TabInfo> {
    names.iter().map(|(active, name)| tab(*active, name)).collect()
}

#[test]
fn test_get_tab_window() {
    let cases = vec![
        (
            tabs(&[(false, "1"), (false, "2"), (true, "3"), (false, "4"), (false, "5")]),
            Some(3),
            (1, 1, tabs(&[(false, "2"), (true, "3"), (false, "4")])),
        ),
        (
            tabs(&[(true, "1"), (false, "2"), (false, "3"), (false, "4"), (false, "5")]),
            Some(3),
            (0, 2, tabs(&[(true, "1"), (false, "2"), (false, "3")])),
        ),
        (
            tabs(&[(false, "1"), (true, "2"), (false, "3"), (false, "4"), (false, "5")]),
            Some(3),
            (0, 2, tabs(&[(false, "1"), (true, "2"), (false, "3")])),
        ),
        (
            tabs(&[(false, "1"), (false, "2"), (false, "3"), (false, "4"), (true, "5")]),
            Some(3),
            (2, 0, tabs(&[(false, "3"), (false, "4"), (true, "5")])),
        ),
        (
            tabs(&[(false, "1"), (false, "2"), (false, "3"), (true, "4"), (false, "5")]),
            Some(3),
            (2, 0, tabs(&[(false, "3"), (true, "4"), (false, "5")])),
        ),
        (
            tabs(&[(false, "1"), (false, "2"), (true, "3"), (false, "4"), (false, "5")]),
            None,
            (
                0,
                0,
                tabs(&[(false, "1"), (false, "2"), (true, "3"), (false, "4"), (false, "5")]),
            ),
        ),
        (
            tabs(&[(false, "1"), (true, "2")]),
            Some(3),
            (0, 0, tabs(&[(false, "1"), (true, "2")])),
        ),
        (
            tabs(&[(false, "1"), (true, "2"), (false, "3")]),
            Some(3),
            (0, 0, tabs(&[(false, "1"), (true, "2"), (false, "3")])),
        ),
    ];
    for (all, max_count, expected) in cases {
        assert_eq!(get_tab_window(&all, max_count), expected);
    }
}

#[test]
fn window_of_even_size_leans_right() {
    let all = tabs(&[(false, "1"), (false, "2"), (true, "3"), (false, "4"), (false, "5")]);
    assert_eq!(get_tab_window_indices(&all, Some(2)), (2, 4));
    assert_eq!(get_tab_window_indices(&all, Some(4)), (1, 5));
}

#[test]
fn window_without_focus_starts_at_the_left() {
    let all = tabs(&[(false, "1"), (false, "2"), (false, "3")]);
    assert_eq!(find_active(&all), None);
    assert_eq!(get_tab_window_indices(&all, Some(2)), (0, 2));
}

#[test]
fn first_of_two_focused_tabs_counts() {
    let all = tabs(&[(false, "1"), (true, "2"), (true, "3")]);
    assert_eq!(find_active(&all), Some(1));
}

#[test]
fn window_of_no_tabs_is_empty() {
    let all = tabs(&[]);
    assert_eq!(get_tab_window(&all, Some(3)), (0, 0, vec![]));
    assert_eq!(get_tab_window(&all, None), (0, 0, vec![]));
}

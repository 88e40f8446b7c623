use zjtabs::color::{color_to_ansi_bg, color_to_ansi_fg, hex_to_rgb, AnsiColor, Color};
use zjtabs::name_color::render_inline_format;
use zjtabs::number::{decimal, parse, parse_hex_byte};
use zjtabs::style::{Effect, FormattedPart};
use zjtabs::text;
use zjtabs::text::{
    chars_of, contains, ends_with, find, join, replace, same, split, starts_with,
    strip_prefix, text_between, trim, trim_end, trim_start,
};
use zjtabs::text_map::TextMap;

fn config(entries: &[(&str, &str)]) -> TextMap<String> {
    let mut m = TextMap::new();
    for (key, value) in entries {
        m.insert(key.to_string(), value.to_string());
    }
    m
}

#[test]
fn searching_finds_the_first_occurrence() {
    let s = chars_of("abcabc");
    let pat = chars_of("bc");
    assert_eq!(find(&s, &pat, 0), Some(1));
    assert_eq!(find(&s, &pat, 2), Some(4));
    assert_eq!(find(&s, &pat, 5), None);
    assert!(contains("a {spin} b", "{spin}"));
    assert!(!contains("a spin b", "{spin}"));
    assert_eq!(text_between(&s, 1, 3), "bc");
}

#[test]
fn replacing_goes_from_left_to_right() {
    assert_eq!(replace("aaa", "aa", "b"), "ba");
    assert_eq!(replace("{spin} x {spin}", "{spin}", "✦"), "✦ x ✦");
    assert_eq!(replace("nothing", "{spin}", "✦"), "nothing");
}

#[test]
fn splitting_keeps_empty_pieces() {
    assert_eq!(split("a,,b,", ","), vec!["a", "", "b", ""]);
    assert_eq!(split("", ","), vec![""]);
    assert_eq!(split("one", ","), vec!["one"]);
}

#[test]
fn joining_and_affixes() {
    let parts = vec!["a".to_owned(), "b".to_owned(), "c".to_owned()];
    assert_eq!(join(&parts, " "), "a b c");
    assert_eq!(join(&vec![], " "), "");
    assert_eq!(text::concat("ab", "cd"), "abcd");
    assert_eq!(strip_prefix("Tab #12", "Tab #"), Some("12".to_owned()));
    assert_eq!(strip_prefix("tab", "Tab #"), None);
    assert!(starts_with("command_x", "command_"));
    assert!(ends_with("command_x_interval", "_interval"));
    assert!(!ends_with("x", "_interval"));
    assert!(same("é", "é"));
    assert!(!same("é", "e"));
}

#[test]
fn trimming_takes_unicode_spaces() {
    assert_eq!(trim_start("\u{2003} \ta b "), "a b ");
    assert_eq!(trim_end(" a b \u{a0}\n"), " a b");
    assert_eq!(trim("\u{3000}a\u{2009}"), "a");
    assert_eq!(trim("  "), "");
}

#[test]
fn numbers_are_written_and_read() {
    assert_eq!(decimal(0), "0");
    assert_eq!(decimal(1050), "1050");
    assert_eq!(decimal(u128::MAX), "340282366920938463463374607431768211455");
    assert_eq!(parse("42", 100), Some(42));
    assert_eq!(parse("+42", 100), Some(42));
    assert_eq!(parse("007", 100), Some(7));
    assert_eq!(parse("101", 100), None);
    assert_eq!(parse("", 100), None);
    assert_eq!(parse("+", 100), None);
    assert_eq!(parse("-1", 100), None);
    assert_eq!(parse("1a", 100), None);
    assert_eq!(parse("18446744073709551615", u64::MAX), Some(u64::MAX));
    assert_eq!(parse("18446744073709551616", u64::MAX), None);
    for n in [0u64, 9, 10, 4096, u64::MAX] {
        assert_eq!(parse(&decimal(n as u128), u64::MAX), Some(n));
    }
}

#[test]
fn hexadecimal_bytes() {
    assert_eq!(parse_hex_byte('f', 'F'), Some(255));
    assert_eq!(parse_hex_byte('0', '9'), Some(9));
    assert_eq!(parse_hex_byte('+', '9'), Some(9));
    assert_eq!(parse_hex_byte('g', '0'), None);
    assert_eq!(hex_to_rgb("ffdc00"), Ok((255, 220, 0)));
    assert_eq!(hex_to_rgb("fff"), Err(()));
    assert_eq!(hex_to_rgb("zzzzzz"), Err(()));
    assert_eq!(hex_to_rgb("é12345"), Err(()));
}

#[test]
fn colors_become_escape_sequences() {
    assert_eq!(color_to_ansi_fg(Some(Color::Rgb(255, 220, 0))), "\x1b[38;2;255;220;0m");
    assert_eq!(color_to_ansi_fg(Some(Color::Ansi(AnsiColor::Red))), "\x1b[31m");
    assert_eq!(color_to_ansi_fg(Some(Color::Ansi(AnsiColor::BrightWhite))), "\x1b[97m");
    assert_eq!(color_to_ansi_fg(Some(Color::Ansi256(208))), "\x1b[38;5;208m");
    assert_eq!(color_to_ansi_fg(None), "\x1b[39m");
    assert_eq!(color_to_ansi_bg(Color::Ansi(AnsiColor::Blue)), "\x1b[44m");
    assert_eq!(color_to_ansi_bg(Color::Rgb(1, 2, 3)), "\x1b[48;2;1;2;3m");
    assert_eq!(color_to_ansi_bg(Color::Ansi256(7)), "\x1b[48;5;7m");
}

#[test]
fn names_without_colors_stay() {
    assert_eq!(render_inline_format("plain [x]", Some(Color::Ansi256(1))), "plain [x]");
    assert_eq!(render_inline_format("", None), "");
}

#[test]
fn names_change_color_and_back() {
    assert_eq!(
        render_inline_format("🤖 #[fg=#ffdc00]✦#[fg=] x", Some(Color::Rgb(1, 2, 3))),
        "🤖 \x1b[38;2;255;220;0m✦\x1b[38;2;1;2;3m x"
    );
    assert_eq!(render_inline_format("#[fg=]x", None), "\x1b[39mx");
}

#[test]
fn formats_are_read_part_by_part() {
    let c = config(&[("color_accent", "#102030")]);
    let parts = FormattedPart::multiple_from_format_string(
        "#[fg=$accent,bg=red,bold] {name} #[fg=42]|",
        &c,
    );
    assert_eq!(parts.len(), 3);
    assert_eq!(parts[0].content, "");
    assert_eq!(parts[1].fg, Some(Color::Rgb(16, 32, 48)));
    assert_eq!(parts[1].bg, Some(Color::Ansi(AnsiColor::Red)));
    assert_eq!(parts[1].effects, vec![Effect::Bold]);
    assert_eq!(parts[1].content, " {name} ");
    assert_eq!(parts[2].fg, Some(Color::Ansi256(42)));
    assert_eq!(parts[2].bg, None);
    assert_eq!(parts[2].content, "|");
    let copied = parts[1].clone();
    assert_eq!(copied, parts[1]);
}

#[test]
fn styled_text_is_reset_behind_it() {
    let c = config(&[]);
    let part = FormattedPart::from_format_string("#[fg=red,underscore]x", &c);
    assert_eq!(part.format_string(&part.content), "\x1b[4m\x1b[31mx\x1b[0m");
    let plain = FormattedPart::from_format_string("x", &c);
    assert_eq!(plain.format_string("y"), "y");
}

#[test]
fn text_maps_replace_values() {
    let mut m = config(&[("a", "1"), ("b", "2")]);
    m.insert("a".to_owned(), "3".to_owned());
    assert_eq!(m.len(), 2);
    assert_eq!(m.get("a"), Some(&"3".to_owned()));
    assert_eq!(m.get("c"), None);
    assert_eq!(m.entry(1), ("b", &"2".to_owned()));
}

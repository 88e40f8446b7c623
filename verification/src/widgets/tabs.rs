//! The widget that shows the tabs.

use vstd::prelude::*;
use vstd::string::*;

use crate::data;
use crate::data::{InputMode, ModeInfo, PaneManifest, PaneView, TabInfo, TabView};
use crate::name_color;
use crate::number;
use crate::search;
use crate::style;
use crate::style::{FormattedPart, PartView};
use crate::text;
use crate::text_map;
use crate::text_map::TextMap;
use crate::width;

verus! {

/// The widget that shows the tabs.
pub struct TabsWidget {
    active_tab_format: Vec<FormattedPart>,
    active_tab_fullscreen_format: Vec<FormattedPart>,
    active_tab_sync_format: Vec<FormattedPart>,
    normal_tab_format: Vec<FormattedPart>,
    normal_tab_fullscreen_format: Vec<FormattedPart>,
    normal_tab_sync_format: Vec<FormattedPart>,
    rename_tab_format: Vec<FormattedPart>,
    separator: Option<FormattedPart>,
    fullscreen_indicator: Option<String>,
    floating_indicator: Option<String>,
    sync_indicator: Option<String>,
    tab_display_count: Option<usize>,
    tab_truncate_start_format: Vec<FormattedPart>,
    tab_truncate_end_format: Vec<FormattedPart>,
}

/// What a [`TabsWidget`] holds.
#[verifier::ext_equal]
pub struct TabsView {
    pub active: Seq<PartView>,
    pub active_fullscreen: Seq<PartView>,
    pub active_sync: Seq<PartView>,
    pub normal: Seq<PartView>,
    pub normal_fullscreen: Seq<PartView>,
    pub normal_sync: Seq<PartView>,
    pub rename: Seq<PartView>,
    pub separator: Option<PartView>,
    pub fullscreen_indicator: Option<Seq<char>>,
    pub floating_indicator: Option<Seq<char>>,
    pub sync_indicator: Option<Seq<char>>,
    pub display_count: Option<usize>,
    pub truncate_start: Seq<PartView>,
    pub truncate_end: Seq<PartView>,
}

impl View for TabsWidget {
    type V = TabsView;

    closed spec fn view(&self) -> TabsView {
        TabsView {
            active: style::views(self.active_tab_format@),
            active_fullscreen: style::views(self.active_tab_fullscreen_format@),
            active_sync: style::views(self.active_tab_sync_format@),
            normal: style::views(self.normal_tab_format@),
            normal_fullscreen: style::views(self.normal_tab_fullscreen_format@),
            normal_sync: style::views(self.normal_tab_sync_format@),
            rename: style::views(self.rename_tab_format@),
            separator: match self.separator {
                Some(s) => Some(s@),
                None => None,
            },
            fullscreen_indicator: text::opt(self.fullscreen_indicator),
            floating_indicator: text::opt(self.floating_indicator),
            sync_indicator: text::opt(self.sync_indicator),
            display_count: self.tab_display_count,
            truncate_start: style::views(self.tab_truncate_start_format@),
            truncate_end: style::views(self.tab_truncate_end_format@),
        }
    }
}

/// The format that the configuration holds under `key`, or else `default`.
pub open spec fn format_setting(
    config: Map<Seq<char>, String>,
    key: Seq<char>,
    default: Seq<PartView>,
) -> Seq<PartView> {
    match text_map::setting(config, key) {
        Some(form) => style::parts_of(form, config),
        None => default,
    }
}

/// The widget that a configuration describes. A tab format that is not given is that of the more
/// general case: fullscreen and sync fall back on the plain format, the active tab on the others,
/// and the tab that is being renamed on the active one.
pub open spec fn widget_of(config: Map<Seq<char>, String>) -> TabsView {
    let normal = format_setting(config, "tab_normal"@, Seq::empty());
    let active = format_setting(config, "tab_active"@, normal);
    TabsView {
        normal,
        normal_fullscreen: format_setting(config, "tab_normal_fullscreen"@, normal),
        normal_sync: format_setting(config, "tab_normal_sync"@, normal),
        active,
        active_fullscreen: format_setting(config, "tab_active_fullscreen"@, active),
        active_sync: format_setting(config, "tab_active_sync"@, active),
        rename: format_setting(config, "tab_rename"@, active),
        separator: Some(
            style::part_of(
                match text_map::setting(config, "tab_separator"@) {
                    Some(s) => s,
                    None => " | "@,
                },
                config,
            ),
        ),
        fullscreen_indicator: text_map::setting(config, "tab_fullscreen_indicator"@),
        floating_indicator: text_map::setting(config, "tab_floating_indicator"@),
        sync_indicator: text_map::setting(config, "tab_sync_indicator"@),
        display_count: match text_map::setting(config, "tab_display_count"@) {
            Some(count) => match number::parsed(count, usize::MAX as nat) {
                Some(n) => Some(n as usize),
                None => None,
            },
            None => None,
        },
        truncate_start: format_setting(config, "tab_truncate_start_format"@, Seq::empty()),
        truncate_end: format_setting(config, "tab_truncate_end_format"@, Seq::empty()),
    }
}

fn read_setting(config: &TextMap<String>, key: &str) -> (r: Option<String>)
    ensures
        text::opt(r) == text_map::setting(config@, key@),
{
    match config.get(key) {
        Some(s) => Some(s.clone()),
        None => None,
    }
}

fn read_format(config: &TextMap<String>, key: &str, default: &Vec<FormattedPart>) -> (r: Vec<
    FormattedPart,
>)
    ensures
        style::views(r@) == format_setting(config@, key@, style::views(default@)),
{
    match config.get(key) {
        Some(form) => FormattedPart::multiple_from_format_string(form.as_str(), config),
        None => style::copy_parts(default),
    }
}

fn read_count(config: &TextMap<String>) -> (r: Option<usize>)
    ensures
        r == widget_of(config@).display_count,
{
    match config.get("tab_display_count") {
        Some(count) => match number::parse(count.as_str(), usize::MAX as u64) {
            Some(n) => Some(n as usize),
            None => None,
        },
        None => None,
    }
}

impl TabsWidget {
    /// The widget that a configuration describes.
    pub fn new(config: &TextMap<String>) -> (r: Self)
        ensures
            r@ == widget_of(config@),
    {
        let none: Vec<FormattedPart> = Vec::new();
        assert(style::views(none@) =~= Seq::empty());
        let normal_tab_format = read_format(config, "tab_normal", &none);
        let normal_tab_fullscreen_format = read_format(
            config,
            "tab_normal_fullscreen",
            &normal_tab_format,
        );
        let normal_tab_sync_format = read_format(config, "tab_normal_sync", &normal_tab_format);
        let active_tab_format = read_format(config, "tab_active", &normal_tab_format);
        let active_tab_fullscreen_format = read_format(
            config,
            "tab_active_fullscreen",
            &active_tab_format,
        );
        let active_tab_sync_format = read_format(config, "tab_active_sync", &active_tab_format);
        let rename_tab_format = read_format(config, "tab_rename", &active_tab_format);
        let tab_truncate_start_format = read_format(config, "tab_truncate_start_format", &none);
        let tab_truncate_end_format = read_format(config, "tab_truncate_end_format", &none);
        let separator = match config.get("tab_separator") {
            Some(s) => FormattedPart::from_format_string(s.as_str(), config),
            None => FormattedPart::from_format_string(" | ", config),
        };
        TabsWidget {
            normal_tab_format,
            normal_tab_fullscreen_format,
            normal_tab_sync_format,
            active_tab_format,
            active_tab_fullscreen_format,
            active_tab_sync_format,
            rename_tab_format,
            separator: Some(separator),
            floating_indicator: read_setting(config, "tab_floating_indicator"),
            sync_indicator: read_setting(config, "tab_sync_indicator"),
            fullscreen_indicator: read_setting(config, "tab_fullscreen_indicator"),
            tab_display_count: read_count(config),
            tab_truncate_start_format,
            tab_truncate_end_format,
        }
    }
}

/// The text of `parts` where `f` says what each part holds.
pub open spec fn printed(parts: Seq<PartView>, f: spec_fn(PartView) -> Seq<char>) -> Seq<char>
    decreases parts.len(),
{
    if parts.len() == 0 {
        Seq::empty()
    } else {
        printed(parts.drop_last(), f) + parts.last().formatted(f(parts.last()))
    }
}

/// What a part of a truncation marker holds where it stands for `count` tabs.
pub open spec fn marker_content(count: nat) -> spec_fn(PartView) -> Seq<char> {
    |part: PartView| text::replaced(part.content, "{count}"@, number::numeral(count))
}

/// Whether a pane floats.
pub open spec fn floating() -> spec_fn(PaneView) -> bool {
    |p: PaneView| p.is_floating
}

/// The panes of the tab at `position`.
pub open spec fn panes_at(panes: Map<usize, Seq<PaneView>>, position: usize) -> Seq<PaneView> {
    if panes.contains_key(position) {
        panes[position]
    } else {
        Seq::empty()
    }
}

/// `content` with `mark` replaced by `indicator` where `shown` holds, and by nothing where it does
/// not. Without an indicator, the mark stays.
pub open spec fn indicated(
    content: Seq<char>,
    mark: Seq<char>,
    indicator: Option<Seq<char>>,
    shown: bool,
) -> Seq<char> {
    match indicator {
        Some(i) => text::replaced(
            content,
            mark,
            if shown {
                i
            } else {
                ""@
            },
        ),
        None => content,
    }
}

/// The name that stands in the text of a tab: in the mode in which a tab is renamed, the name that
/// the tab has so far or a request for one, and otherwise `display_name`.
pub open spec fn raw_name(tab: TabView, mode: InputMode, display_name: Seq<char>) -> Seq<char> {
    if mode == InputMode::RenameTab {
        if tab.name.len() == 0 {
            "Enter name..."@
        } else {
            tab.name
        }
    } else {
        display_name
    }
}

/// `name`, cut off where it is wider than `limit`.
pub open spec fn limited(name: Seq<char>, limit: Option<usize>) -> Seq<char> {
    match limit {
        Some(w) => width::truncated(name, w),
        None => name,
    }
}

impl TabsView {
    /// The format of `tab`.
    pub open spec fn format_of(self, tab: TabView, mode: InputMode) -> Seq<PartView> {
        if tab.active && mode == InputMode::RenameTab {
            self.rename
        } else if tab.active && tab.is_fullscreen_active {
            self.active_fullscreen
        } else if tab.active && tab.is_sync_panes_active {
            self.active_sync
        } else if tab.active {
            self.active
        } else if tab.is_fullscreen_active {
            self.normal_fullscreen
        } else if tab.is_sync_panes_active {
            self.normal_sync
        } else {
            self.normal
        }
    }

    /// `content` with the marks of the indicators replaced.
    pub open spec fn with_indicators(
        self,
        content: Seq<char>,
        tab: TabView,
        panes: Map<usize, Seq<PaneView>>,
    ) -> Seq<char> {
        let fullscreen = indicated(
            content,
            "{fullscreen_indicator}"@,
            self.fullscreen_indicator,
            tab.is_fullscreen_active,
        );
        let sync = indicated(
            fullscreen,
            "{sync_indicator}"@,
            self.sync_indicator,
            tab.is_sync_panes_active,
        );
        indicated(
            sync,
            "{floating_indicator}"@,
            self.floating_indicator,
            search::tally(panes_at(panes, tab.position), floating()) > 0,
        )
    }

    /// What a part of the format of `tab` holds where the tab is shown under `name`: the name, the
    /// position counted from 1, the number of floating panes and the indicators, in the places of
    /// their marks.
    pub open spec fn tab_content(
        self,
        tab: TabView,
        panes: Map<usize, Seq<PaneView>>,
        name: Seq<char>,
    ) -> spec_fn(PartView) -> Seq<char> {
        |part: PartView|
            {
                let named = text::replaced(
                    part.content,
                    "{name}"@,
                    name_color::colored(name, part.fg),
                );
                let indexed = text::replaced(
                    named,
                    "{index}"@,
                    number::numeral(tab.position as nat + 1),
                );
                let counted = text::replaced(
                    indexed,
                    "{floating_total_count}"@,
                    number::numeral(search::tally(panes_at(panes, tab.position), floating())),
                );
                self.with_indicators(counted, tab, panes)
            }
    }

    /// The text of `tab` where it is to be shown under `display_name`, in a width of `limit`.
    pub open spec fn tab_text(
        self,
        tab: TabView,
        panes: Map<usize, Seq<PaneView>>,
        mode: InputMode,
        display_name: Seq<char>,
        limit: Option<usize>,
    ) -> Seq<char> {
        printed(
            self.format_of(tab, mode),
            self.tab_content(tab, panes, limited(raw_name(tab, mode, display_name), limit)),
        )
    }

    /// The marker for `count` tabs that are left out on the left.
    pub open spec fn start_marker(self, count: nat) -> Seq<char> {
        printed(self.truncate_start, marker_content(count))
    }

    /// The marker for `count` tabs that are left out on the right.
    pub open spec fn end_marker(self, count: nat) -> Seq<char> {
        printed(self.truncate_end, marker_content(count))
    }

    /// What stands between two tabs.
    pub open spec fn separator_text(self) -> Seq<char> {
        match self.separator {
            Some(sep) => sep.formatted(sep.content),
            None => Seq::empty(),
        }
    }
}

fn count_floating(panes: &PaneManifest, position: usize) -> (r: usize)
    ensures
        r == search::tally(panes_at(panes@, position), floating()),
{
    match panes.of_tab(position) {
        Some(ps) => {
            let ghost all = data::pane_views(ps@);
            let mut count: usize = 0;
            let mut i: usize = 0;
            assert(all.take(0) =~= Seq::empty());
            while i < ps.len()
                invariant
                    i <= ps@.len(),
                    count <= i,
                    all == data::pane_views(ps@),
                    count == search::tally(all.take(i as int), floating()),
                decreases ps@.len() - i,
            {
                assert(all.take(i + 1).drop_last() =~= all.take(i as int));
                assert(all[i as int] == ps@[i as int]@);
                if ps[i].is_floating {
                    count = count + 1;
                }
                i = i + 1;
            }
            assert(all.take(i as int) =~= all);
            count
        },
        None => 0,
    }
}

fn print_marker(parts: &Vec<FormattedPart>, count: usize) -> (r: String)
    ensures
        r@ == printed(style::views(parts@), marker_content(count as nat)),
{
    proof {
        reveal_strlit("{count}");
    }
    let ghost all = style::views(parts@);
    let numeral = number::decimal(count as u128);
    let mut out = String::new();
    let mut i: usize = 0;
    while i < parts.len()
        invariant
            i <= parts@.len(),
            "{count}"@.len() > 0,
            all == style::views(parts@),
            numeral@ == number::numeral(count as nat),
            out@ == printed(all.take(i as int), marker_content(count as nat)),
        decreases parts@.len() - i,
    {
        assert(all.take(i + 1).drop_last() =~= all.take(i as int));
        assert(all[i as int] == parts@[i as int]@);
        let content = text::replace(parts[i].content.as_str(), "{count}", numeral.as_str());
        out.append(parts[i].format_string(content.as_str()).as_str());
        i = i + 1;
    }
    assert(all.take(i as int) =~= all);
    out
}

fn indicate(content: String, mark: &str, indicator: &Option<String>, shown: bool) -> (r: String)
    requires
        mark@.len() > 0,
    ensures
        r@ == indicated(content@, mark@, text::opt(*indicator), shown),
{
    match indicator {
        Some(i) => if shown {
            text::replace(content.as_str(), mark, i.as_str())
        } else {
            text::replace(content.as_str(), mark, "")
        },
        None => content,
    }
}

impl TabsWidget {
    /// The number of tabs that may be shown.
    pub fn display_count(&self) -> (r: Option<usize>)
        ensures
            r == self@.display_count,
    {
        self.tab_display_count
    }

    /// What stands between two tabs.
    pub fn separator_string(&self) -> (r: String)
        ensures
            r@ == self@.separator_text(),
    {
        match &self.separator {
            Some(sep) => sep.format_string(sep.content.as_str()),
            None => String::new(),
        }
    }

    /// The marker for the tabs that are left out on the left.
    pub fn render_truncate_start(&self, truncated_start: usize) -> (r: String)
        ensures
            r@ == self@.start_marker(truncated_start as nat),
    {
        print_marker(&self.tab_truncate_start_format, truncated_start)
    }

    /// The marker for the tabs that are left out on the right.
    pub fn render_truncate_end(&self, truncated_end: usize) -> (r: String)
        ensures
            r@ == self@.end_marker(truncated_end as nat),
    {
        print_marker(&self.tab_truncate_end_format, truncated_end)
    }

    /// The format of a tab.
    pub fn select_format(&self, info: &TabInfo, mode: &ModeInfo) -> (r: &Vec<FormattedPart>)
        ensures
            style::views(r@) == self@.format_of(info@, mode.mode),
    {
        if info.active && mode.mode == InputMode::RenameTab {
            return &self.rename_tab_format;
        }
        if info.active && info.is_fullscreen_active {
            return &self.active_tab_fullscreen_format;
        }
        if info.active && info.is_sync_panes_active {
            return &self.active_tab_sync_format;
        }
        if info.active {
            return &self.active_tab_format;
        }
        if info.is_fullscreen_active {
            return &self.normal_tab_fullscreen_format;
        }
        if info.is_sync_panes_active {
            return &self.normal_tab_sync_format;
        }
        &self.normal_tab_format
    }

    /// The name that stands in the text of a tab.
    pub fn raw_tab_name<'a>(&self, tab: &'a TabInfo, mode: &ModeInfo, display_name: &'a str) -> (r:
        &'a str)
        ensures
            r@ == raw_name(tab@, mode.mode, display_name@),
    {
        if mode.mode == InputMode::RenameTab {
            if tab.name.as_str().is_empty() {
                "Enter name..."
            } else {
                tab.name.as_str()
            }
        } else {
            display_name
        }
    }

    /// A name, cut off where it is wider than the limit.
    pub fn truncate_tab_name(&self, tab_name: &str, name_width_limit: Option<usize>) -> (r: String)
        ensures
            r@ == limited(tab_name@, name_width_limit),
    {
        match name_width_limit {
            Some(w) => width::truncate_text(tab_name, w),
            None => tab_name.to_owned(),
        }
    }

    /// `content` with the marks of the indicators replaced.
    pub fn replace_indicators(&self, content: String, tab: &TabInfo, panes: &PaneManifest) -> (r:
        String)
        ensures
            r@ == self@.with_indicators(content@, tab@, panes@),
    {
        proof {
            reveal_strlit("{fullscreen_indicator}");
            reveal_strlit("{sync_indicator}");
            reveal_strlit("{floating_indicator}");
        }
        let fullscreen = indicate(
            content,
            "{fullscreen_indicator}",
            &self.fullscreen_indicator,
            tab.is_fullscreen_active,
        );
        let sync = indicate(
            fullscreen,
            "{sync_indicator}",
            &self.sync_indicator,
            tab.is_sync_panes_active,
        );
        indicate(
            sync,
            "{floating_indicator}",
            &self.floating_indicator,
            count_floating(panes, tab.position) > 0,
        )
    }

    /// The text of a tab where it is to be shown under `display_name`.
    pub fn render_tab(
        &self,
        tab: &TabInfo,
        panes: &PaneManifest,
        mode: &ModeInfo,
        display_name: &str,
        name_width_limit: Option<usize>,
    ) -> (r: String)
        ensures
            r@ == self@.tab_text(tab@, panes@, mode.mode, display_name@, name_width_limit),
    {
        proof {
            reveal_strlit("{name}");
            reveal_strlit("{index}");
            reveal_strlit("{floating_total_count}");
        }
        let formatters = self.select_format(tab, mode);
        let tab_name = self.truncate_tab_name(
            self.raw_tab_name(tab, mode, display_name),
            name_width_limit,
        );
        let index = number::decimal(tab.position as u128 + 1);
        let floating_count = number::decimal(count_floating(panes, tab.position) as u128);
        let ghost all = style::views(formatters@);
        let ghost content_of = self@.tab_content(tab@, panes@, tab_name@);
        let mut output = String::new();
        let mut i: usize = 0;
        while i < formatters.len()
            invariant
                i <= formatters@.len(),
                "{name}"@.len() > 0,
                "{index}"@.len() > 0,
                "{floating_total_count}"@.len() > 0,
                all == style::views(formatters@),
                content_of == self@.tab_content(tab@, panes@, tab_name@),
                index@ == number::numeral(tab.position as nat + 1),
                floating_count@ == number::numeral(
                    search::tally(panes_at(panes@, tab.position), floating()),
                ),
                output@ == printed(all.take(i as int), content_of),
            decreases formatters@.len() - i,
        {
            assert(all.take(i + 1).drop_last() =~= all.take(i as int));
            assert(all[i as int] == formatters@[i as int]@);
            let f = &formatters[i];
            let name = name_color::render_inline_format(tab_name.as_str(), f.fg);
            let named = text::replace(f.content.as_str(), "{name}", name.as_str());
            let indexed = text::replace(named.as_str(), "{index}", index.as_str());
            let counted = text::replace(
                indexed.as_str(),
                "{floating_total_count}",
                floating_count.as_str(),
            );
            let content = self.replace_indicators(counted, tab, panes);
            output.append(f.format_string(content.as_str()).as_str());
            i = i + 1;
        }
        assert(all.take(i as int) =~= all);
        output
    }
}

} // verus!

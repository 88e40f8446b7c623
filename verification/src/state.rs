//! What the bar knows: the tabs and panes, the mode, and the titles that panes gave their tabs.

use std::collections::BTreeMap;
use vstd::prelude::*;

use crate::data;
use crate::data::{InputMode, ModeInfo, PaneManifest, PaneView, TabInfo, TabView};
use crate::text;
use crate::text_map;
use crate::text_map::TextMap;

verus! {

/// The kind of change that the shown widgets have to follow.
#[derive(Clone, Copy, Debug, PartialEq, Eq, Structural)]
pub enum UpdateEventMask {
    Mode,
    Tab,
    Command,
}

/// What a command that ran for a widget left behind.
#[derive(Debug, PartialEq, Eq)]
pub struct CommandResult {
    pub exit_code: Option<i32>,
    pub stdout: String,
    pub stderr: String,
    pub context: TextMap<String>,
}

/// What a [`CommandResult`] holds.
#[verifier::ext_equal]
pub struct CommandView {
    pub exit_code: Option<i32>,
    pub stdout: Seq<char>,
    pub stderr: Seq<char>,
    pub context: Map<Seq<char>, Seq<char>>,
}

impl View for CommandResult {
    type V = CommandView;

    open spec fn view(&self) -> CommandView {
        CommandView {
            exit_code: self.exit_code,
            stdout: self.stdout@,
            stderr: self.stderr@,
            context: text_map::texts_of(self.context@),
        }
    }
}

/// Texts by pane, for each position of a tab.
pub type TabTexts = BTreeMap<usize, BTreeMap<u32, String>>;

/// What the bar knows.
#[derive(Debug, PartialEq, Eq)]
pub struct ZellijState {
    /// The width of the bar.
    pub cols: usize,
    pub command_results: TextMap<CommandResult>,
    /// Whether the bar itself is in the focused tab.
    pub is_current_tab_plugin: bool,
    pub mode: ModeInfo,
    pub panes: PaneManifest,
    pub plugin_uuid: String,
    pub tabs: Vec<TabInfo>,
    /// The kind of the last change, where there was one.
    pub cache_mask: Option<UpdateEventMask>,
    /// The titles that panes gave their tabs.
    pub tab_name_overrides: TabTexts,
    /// The names of the projects that go with the titles.
    pub tab_name_fallbacks: TabTexts,
    /// How far the spinner has turned.
    pub spinner_idx: usize,
}

/// What a [`ZellijState`] holds.
#[verifier::ext_equal]
pub struct StateView {
    pub cols: usize,
    pub command_results: Map<Seq<char>, CommandView>,
    pub is_current_tab_plugin: bool,
    pub mode: InputMode,
    pub session: Option<Seq<char>>,
    pub panes: Map<usize, Seq<PaneView>>,
    pub plugin_uuid: Seq<char>,
    pub tabs: Seq<TabView>,
    pub cache_mask: Option<UpdateEventMask>,
    pub overrides: Map<usize, Map<u32, Seq<char>>>,
    pub fallbacks: Map<usize, Map<u32, Seq<char>>>,
    pub spinner_idx: usize,
}

/// The texts of the panes of one tab.
pub open spec fn texts(m: Map<u32, String>) -> Map<u32, Seq<char>> {
    m.map_values(|s: String| s@)
}

/// The texts of the panes of all tabs.
pub open spec fn tab_texts(m: Map<usize, BTreeMap<u32, String>>) -> Map<
    usize,
    Map<u32, Seq<char>>,
> {
    m.map_values(|inner: BTreeMap<u32, String>| texts(inner@))
}

impl View for ZellijState {
    type V = StateView;

    open spec fn view(&self) -> StateView {
        StateView {
            cols: self.cols,
            command_results: self.command_results@.map_values(|c: CommandResult| c@),
            is_current_tab_plugin: self.is_current_tab_plugin,
            mode: self.mode.mode,
            session: text::opt(self.mode.session_name),
            panes: self.panes@,
            plugin_uuid: self.plugin_uuid@,
            tabs: data::tab_views(self.tabs@),
            cache_mask: self.cache_mask,
            overrides: tab_texts(self.tab_name_overrides@),
            fallbacks: tab_texts(self.tab_name_fallbacks@),
            spinner_idx: self.spinner_idx,
        }
    }
}

/// The state before anything is known.
pub open spec fn blank(plugin_uuid: Seq<char>) -> StateView {
    StateView {
        cols: 0,
        command_results: Map::empty(),
        is_current_tab_plugin: false,
        mode: InputMode::Normal,
        session: None,
        panes: Map::empty(),
        plugin_uuid,
        tabs: Seq::empty(),
        cache_mask: None,
        overrides: Map::empty(),
        fallbacks: Map::empty(),
        spinner_idx: 0,
    }
}

impl ZellijState {
    /// The state before anything is known.
    pub fn new(plugin_uuid: String) -> (r: Self)
        ensures
            r@ == blank(plugin_uuid@),
    {
        let r = ZellijState {
            cols: 0,
            command_results: TextMap::new(),
            is_current_tab_plugin: false,
            mode: ModeInfo::default(),
            panes: PaneManifest::default(),
            plugin_uuid,
            tabs: Vec::new(),
            cache_mask: None,
            tab_name_overrides: BTreeMap::new(),
            tab_name_fallbacks: BTreeMap::new(),
            spinner_idx: 0,
        };
        assert(r@ =~= blank(plugin_uuid@));
        r
    }
}

} // verus!

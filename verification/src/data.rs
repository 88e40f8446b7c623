//! What the multiplexer tells about its tabs, its panes and its mode.

use std::collections::BTreeMap;
use vstd::prelude::*;

use crate::ordered;
use crate::text;

verus! {

/// A copy of an optional text.
pub fn copy_text(s: &Option<String>) -> (r: Option<String>)
    ensures
        text::opt(r) == text::opt(*s),
{
    match s {
        Some(t) => Some(t.clone()),
        None => None,
    }
}

/// Whether two optional texts hold the same.
pub fn same_text(a: &Option<String>, b: &Option<String>) -> (r: bool)
    ensures
        r == (text::opt(*a) == text::opt(*b)),
{
    match (a, b) {
        (Some(x), Some(y)) => *x == *y,
        (None, None) => true,
        _ => false,
    }
}

fn same_status(a: Option<i32>, b: Option<i32>) -> (r: bool)
    ensures
        r == (a == b),
{
    match (a, b) {
        (Some(x), Some(y)) => x == y,
        (None, None) => true,
        _ => false,
    }
}

fn same_spot(a: Option<(usize, usize)>, b: Option<(usize, usize)>) -> (r: bool)
    ensures
        r == (a == b),
{
    match (a, b) {
        (Some(x), Some(y)) => x.0 == y.0 && x.1 == y.1,
        (None, None) => true,
        _ => false,
    }
}

fn copy_clients(v: &Vec<u16>) -> (r: Vec<u16>)
    ensures
        r@ == v@,
{
    let mut r: Vec<u16> = Vec::new();
    let mut i: usize = 0;
    while i < v.len()
        invariant
            i <= v@.len(),
            r@ == v@.take(i as int),
        decreases v@.len() - i,
    {
        r.push(v[i]);
        i = i + 1;
    }
    assert(r@ =~= v@);
    r
}

fn same_clients(a: &Vec<u16>, b: &Vec<u16>) -> (r: bool)
    ensures
        r == (a@ == b@),
{
    if a.len() != b.len() {
        return false;
    }
    let mut i: usize = 0;
    while i < a.len()
        invariant
            i <= a@.len(),
            a@.len() == b@.len(),
            forall|j: int| 0 <= j < i ==> a@[j] == b@[j],
        decreases a@.len() - i,
    {
        if a[i] != b[i] {
            return false;
        }
        i = i + 1;
    }
    assert(a@ =~= b@);
    true
}

fn copy_places(v: &Vec<(u16, usize)>) -> (r: Vec<(u16, usize)>)
    ensures
        r@ == v@,
{
    let mut r: Vec<(u16, usize)> = Vec::new();
    let mut i: usize = 0;
    while i < v.len()
        invariant
            i <= v@.len(),
            r@ == v@.take(i as int),
        decreases v@.len() - i,
    {
        r.push(v[i]);
        i = i + 1;
    }
    assert(r@ =~= v@);
    r
}

fn same_places(a: &Vec<(u16, usize)>, b: &Vec<(u16, usize)>) -> (r: bool)
    ensures
        r == (a@ == b@),
{
    if a.len() != b.len() {
        return false;
    }
    let mut i: usize = 0;
    while i < a.len()
        invariant
            i <= a@.len(),
            a@.len() == b@.len(),
            forall|j: int| 0 <= j < i ==> a@[j] == b@[j],
        decreases a@.len() - i,
    {
        if a[i].0 != b[i].0 || a[i].1 != b[i].1 {
            return false;
        }
        i = i + 1;
    }
    assert(a@ =~= b@);
    true
}

/// A tab.
#[derive(Debug, PartialEq, Eq)]
pub struct TabInfo {
    /// The position of the tab, counted from 0.
    pub position: usize,
    /// The name that the tab was given.
    pub name: String,
    /// Whether the tab is the focused one.
    pub active: bool,
    /// The number of suppressed panes.
    pub panes_to_hide: usize,
    /// Whether one pane takes up the whole tab.
    pub is_fullscreen_active: bool,
    /// Whether input goes to all panes of the tab.
    pub is_sync_panes_active: bool,
    pub are_floating_panes_visible: bool,
    pub other_focused_clients: Vec<u16>,
    pub active_swap_layout_name: Option<String>,
    pub is_swap_layout_dirty: bool,
    pub viewport_rows: usize,
    pub viewport_columns: usize,
    pub display_area_rows: usize,
    pub display_area_columns: usize,
    pub selectable_tiled_panes_count: usize,
    pub selectable_floating_panes_count: usize,
}

/// What a [`TabInfo`] holds.
#[verifier::ext_equal]
pub struct TabView {
    pub position: usize,
    pub name: Seq<char>,
    pub active: bool,
    pub panes_to_hide: usize,
    pub is_fullscreen_active: bool,
    pub is_sync_panes_active: bool,
    pub are_floating_panes_visible: bool,
    pub other_focused_clients: Seq<u16>,
    pub active_swap_layout_name: Option<Seq<char>>,
    pub is_swap_layout_dirty: bool,
    pub viewport_rows: usize,
    pub viewport_columns: usize,
    pub display_area_rows: usize,
    pub display_area_columns: usize,
    pub selectable_tiled_panes_count: usize,
    pub selectable_floating_panes_count: usize,
}

impl View for TabInfo {
    type V = TabView;

    open spec fn view(&self) -> TabView {
        TabView {
            position: self.position,
            name: self.name@,
            active: self.active,
            panes_to_hide: self.panes_to_hide,
            is_fullscreen_active: self.is_fullscreen_active,
            is_sync_panes_active: self.is_sync_panes_active,
            are_floating_panes_visible: self.are_floating_panes_visible,
            other_focused_clients: self.other_focused_clients@,
            active_swap_layout_name: text::opt(self.active_swap_layout_name),
            is_swap_layout_dirty: self.is_swap_layout_dirty,
            viewport_rows: self.viewport_rows,
            viewport_columns: self.viewport_columns,
            display_area_rows: self.display_area_rows,
            display_area_columns: self.display_area_columns,
            selectable_tiled_panes_count: self.selectable_tiled_panes_count,
            selectable_floating_panes_count: self.selectable_floating_panes_count,
        }
    }
}

impl Default for TabInfo {
    /// Numbers at 0, texts and lists empty, and nothing set.
    fn default() -> (r: Self)
        ensures
            r@ == (TabView {
                position: 0,
                name: Seq::empty(),
                active: false,
                panes_to_hide: 0,
                is_fullscreen_active: false,
                is_sync_panes_active: false,
                are_floating_panes_visible: false,
                other_focused_clients: Seq::empty(),
                active_swap_layout_name: None,
                is_swap_layout_dirty: false,
                viewport_rows: 0,
                viewport_columns: 0,
                display_area_rows: 0,
                display_area_columns: 0,
                selectable_tiled_panes_count: 0,
                selectable_floating_panes_count: 0,
            }),
    {
        TabInfo {
            position: 0,
            name: String::new(),
            active: false,
            panes_to_hide: 0,
            is_fullscreen_active: false,
            is_sync_panes_active: false,
            are_floating_panes_visible: false,
            other_focused_clients: Vec::new(),
            active_swap_layout_name: None,
            is_swap_layout_dirty: false,
            viewport_rows: 0,
            viewport_columns: 0,
            display_area_rows: 0,
            display_area_columns: 0,
            selectable_tiled_panes_count: 0,
            selectable_floating_panes_count: 0,
        }
    }
}

impl Clone for TabInfo {
    fn clone(&self) -> (r: Self)
        ensures
            r@ == self@,
    {
        TabInfo {
            position: self.position,
            name: self.name.clone(),
            active: self.active,
            panes_to_hide: self.panes_to_hide,
            is_fullscreen_active: self.is_fullscreen_active,
            is_sync_panes_active: self.is_sync_panes_active,
            are_floating_panes_visible: self.are_floating_panes_visible,
            other_focused_clients: copy_clients(&self.other_focused_clients),
            active_swap_layout_name: copy_text(&self.active_swap_layout_name),
            is_swap_layout_dirty: self.is_swap_layout_dirty,
            viewport_rows: self.viewport_rows,
            viewport_columns: self.viewport_columns,
            display_area_rows: self.display_area_rows,
            display_area_columns: self.display_area_columns,
            selectable_tiled_panes_count: self.selectable_tiled_panes_count,
            selectable_floating_panes_count: self.selectable_floating_panes_count,
        }
    }
}

impl TabInfo {
    /// Whether two descriptions agree in everything.
    pub fn same(&self, other: &TabInfo) -> (r: bool)
        ensures
            r == (self@ == other@),
    {
        self.position == other.position
            && self.name == other.name
            && self.active == other.active
            && self.panes_to_hide == other.panes_to_hide
            && self.is_fullscreen_active == other.is_fullscreen_active
            && self.is_sync_panes_active == other.is_sync_panes_active
            && self.are_floating_panes_visible == other.are_floating_panes_visible
            && same_clients(&self.other_focused_clients, &other.other_focused_clients)
            && same_text(&self.active_swap_layout_name, &other.active_swap_layout_name)
            && self.is_swap_layout_dirty == other.is_swap_layout_dirty
            && self.viewport_rows == other.viewport_rows
            && self.viewport_columns == other.viewport_columns
            && self.display_area_rows == other.display_area_rows
            && self.display_area_columns == other.display_area_columns
            && self.selectable_tiled_panes_count == other.selectable_tiled_panes_count
            && self.selectable_floating_panes_count == other.selectable_floating_panes_count
    }
}

/// A pane.
#[derive(Debug, PartialEq, Eq)]
pub struct PaneInfo {
    /// The number of the pane, unique among panes of its kind.
    pub id: u32,
    /// Whether the pane is a plugin, and not a terminal.
    pub is_plugin: bool,
    /// Whether the pane is focused in its layer.
    pub is_focused: bool,
    pub is_fullscreen: bool,
    /// Whether the pane floats above the tiled ones.
    pub is_floating: bool,
    pub is_suppressed: bool,
    /// The full title of the pane.
    pub title: String,
    pub exited: bool,
    pub exit_status: Option<i32>,
    pub is_held: bool,
    pub pane_x: usize,
    pub pane_content_x: usize,
    pub pane_y: usize,
    pub pane_content_y: usize,
    pub pane_rows: usize,
    pub pane_content_rows: usize,
    pub pane_columns: usize,
    pub pane_content_columns: usize,
    pub cursor_coordinates_in_pane: Option<(usize, usize)>,
    pub terminal_command: Option<String>,
    pub plugin_url: Option<String>,
    pub is_selectable: bool,
    /// For each client, in ascending order, the place of the pane in the client's group.
    pub index_in_pane_group: Vec<(u16, usize)>,
}

/// What a [`PaneInfo`] holds.
#[verifier::ext_equal]
pub struct PaneView {
    pub id: u32,
    pub is_plugin: bool,
    pub is_focused: bool,
    pub is_fullscreen: bool,
    pub is_floating: bool,
    pub is_suppressed: bool,
    pub title: Seq<char>,
    pub exited: bool,
    pub exit_status: Option<i32>,
    pub is_held: bool,
    pub pane_x: usize,
    pub pane_content_x: usize,
    pub pane_y: usize,
    pub pane_content_y: usize,
    pub pane_rows: usize,
    pub pane_content_rows: usize,
    pub pane_columns: usize,
    pub pane_content_columns: usize,
    pub cursor_coordinates_in_pane: Option<(usize, usize)>,
    pub terminal_command: Option<Seq<char>>,
    pub plugin_url: Option<Seq<char>>,
    pub is_selectable: bool,
    pub index_in_pane_group: Seq<(u16, usize)>,
}

impl View for PaneInfo {
    type V = PaneView;

    open spec fn view(&self) -> PaneView {
        PaneView {
            id: self.id,
            is_plugin: self.is_plugin,
            is_focused: self.is_focused,
            is_fullscreen: self.is_fullscreen,
            is_floating: self.is_floating,
            is_suppressed: self.is_suppressed,
            title: self.title@,
            exited: self.exited,
            exit_status: self.exit_status,
            is_held: self.is_held,
            pane_x: self.pane_x,
            pane_content_x: self.pane_content_x,
            pane_y: self.pane_y,
            pane_content_y: self.pane_content_y,
            pane_rows: self.pane_rows,
            pane_content_rows: self.pane_content_rows,
            pane_columns: self.pane_columns,
            pane_content_columns: self.pane_content_columns,
            cursor_coordinates_in_pane: self.cursor_coordinates_in_pane,
            terminal_command: text::opt(self.terminal_command),
            plugin_url: text::opt(self.plugin_url),
            is_selectable: self.is_selectable,
            index_in_pane_group: self.index_in_pane_group@,
        }
    }
}

impl Default for PaneInfo {
    /// Numbers at 0, texts and lists empty, and nothing set.
    fn default() -> (r: Self)
        ensures
            r@ == (PaneView {
                id: 0,
                is_plugin: false,
                is_focused: false,
                is_fullscreen: false,
                is_floating: false,
                is_suppressed: false,
                title: Seq::empty(),
                exited: false,
                exit_status: None,
                is_held: false,
                pane_x: 0,
                pane_content_x: 0,
                pane_y: 0,
                pane_content_y: 0,
                pane_rows: 0,
                pane_content_rows: 0,
                pane_columns: 0,
                pane_content_columns: 0,
                cursor_coordinates_in_pane: None,
                terminal_command: None,
                plugin_url: None,
                is_selectable: false,
                index_in_pane_group: Seq::empty(),
            }),
    {
        PaneInfo {
            id: 0,
            is_plugin: false,
            is_focused: false,
            is_fullscreen: false,
            is_floating: false,
            is_suppressed: false,
            title: String::new(),
            exited: false,
            exit_status: None,
            is_held: false,
            pane_x: 0,
            pane_content_x: 0,
            pane_y: 0,
            pane_content_y: 0,
            pane_rows: 0,
            pane_content_rows: 0,
            pane_columns: 0,
            pane_content_columns: 0,
            cursor_coordinates_in_pane: None,
            terminal_command: None,
            plugin_url: None,
            is_selectable: false,
            index_in_pane_group: Vec::new(),
        }
    }
}

impl Clone for PaneInfo {
    fn clone(&self) -> (r: Self)
        ensures
            r@ == self@,
    {
        PaneInfo {
            id: self.id,
            is_plugin: self.is_plugin,
            is_focused: self.is_focused,
            is_fullscreen: self.is_fullscreen,
            is_floating: self.is_floating,
            is_suppressed: self.is_suppressed,
            title: self.title.clone(),
            exited: self.exited,
            exit_status: self.exit_status,
            is_held: self.is_held,
            pane_x: self.pane_x,
            pane_content_x: self.pane_content_x,
            pane_y: self.pane_y,
            pane_content_y: self.pane_content_y,
            pane_rows: self.pane_rows,
            pane_content_rows: self.pane_content_rows,
            pane_columns: self.pane_columns,
            pane_content_columns: self.pane_content_columns,
            cursor_coordinates_in_pane: self.cursor_coordinates_in_pane,
            terminal_command: copy_text(&self.terminal_command),
            plugin_url: copy_text(&self.plugin_url),
            is_selectable: self.is_selectable,
            index_in_pane_group: copy_places(&self.index_in_pane_group),
        }
    }
}

impl PaneInfo {
    /// Whether two descriptions agree in everything.
    pub fn same(&self, other: &PaneInfo) -> (r: bool)
        ensures
            r == (self@ == other@),
    {
        self.id == other.id
            && self.is_plugin == other.is_plugin
            && self.is_focused == other.is_focused
            && self.is_fullscreen == other.is_fullscreen
            && self.is_floating == other.is_floating
            && self.is_suppressed == other.is_suppressed
            && self.title == other.title
            && self.exited == other.exited
            && same_status(self.exit_status, other.exit_status)
            && self.is_held == other.is_held
            && self.pane_x == other.pane_x
            && self.pane_content_x == other.pane_content_x
            && self.pane_y == other.pane_y
            && self.pane_content_y == other.pane_content_y
            && self.pane_rows == other.pane_rows
            && self.pane_content_rows == other.pane_content_rows
            && self.pane_columns == other.pane_columns
            && self.pane_content_columns == other.pane_content_columns
            && same_spot(self.cursor_coordinates_in_pane, other.cursor_coordinates_in_pane)
            && same_text(&self.terminal_command, &other.terminal_command)
            && same_text(&self.plugin_url, &other.plugin_url)
            && self.is_selectable == other.is_selectable
            && same_places(&self.index_in_pane_group, &other.index_in_pane_group)
    }
}

/// The views of a list of tabs.
pub open spec fn tab_views(tabs: Seq<TabInfo>) -> Seq<TabView> {
    tabs.map_values(|t: TabInfo| t@)
}

/// The views of a list of panes.
pub open spec fn pane_views(panes: Seq<PaneInfo>) -> Seq<PaneView> {
    panes.map_values(|p: PaneInfo| p@)
}

/// The panes of each tab, by the position of the tab.
#[derive(Debug, PartialEq, Eq)]
pub struct PaneManifest {
    pub panes: BTreeMap<usize, Vec<PaneInfo>>,
}

impl View for PaneManifest {
    type V = Map<usize, Seq<PaneView>>;

    open spec fn view(&self) -> Map<usize, Seq<PaneView>> {
        self.panes@.map_values(|panes: Vec<PaneInfo>| pane_views(panes@))
    }
}

impl Default for PaneManifest {
    /// No tab has panes.
    fn default() -> (r: Self)
        ensures
            r@ == Map::<usize, Seq<PaneView>>::empty(),
    {
        let r = PaneManifest { panes: BTreeMap::new() };
        assert(r@ =~= Map::<usize, Seq<PaneView>>::empty());
        r
    }
}

fn same_panes(a: &Vec<PaneInfo>, b: &Vec<PaneInfo>) -> (r: bool)
    ensures
        r == (pane_views(a@) == pane_views(b@)),
{
    if a.len() != b.len() {
        assert(pane_views(a@).len() != pane_views(b@).len());
        return false;
    }
    let mut i: usize = 0;
    while i < a.len()
        invariant
            i <= a@.len(),
            a@.len() == b@.len(),
            forall|j: int| 0 <= j < i ==> a@[j]@ == b@[j]@,
        decreases a@.len() - i,
    {
        if !a[i].same(&b[i]) {
            assert(pane_views(a@)[i as int] != pane_views(b@)[i as int]);
            return false;
        }
        i = i + 1;
    }
    assert(pane_views(a@) =~= pane_views(b@));
    true
}

/// Whether two lists of tabs agree in everything.
pub fn same_tabs(a: &Vec<TabInfo>, b: &Vec<TabInfo>) -> (r: bool)
    ensures
        r == (tab_views(a@) == tab_views(b@)),
{
    if a.len() != b.len() {
        assert(tab_views(a@).len() != tab_views(b@).len());
        return false;
    }
    let mut i: usize = 0;
    while i < a.len()
        invariant
            i <= a@.len(),
            a@.len() == b@.len(),
            forall|j: int| 0 <= j < i ==> a@[j]@ == b@[j]@,
        decreases a@.len() - i,
    {
        if !a[i].same(&b[i]) {
            assert(tab_views(a@)[i as int] != tab_views(b@)[i as int]);
            return false;
        }
        i = i + 1;
    }
    assert(tab_views(a@) =~= tab_views(b@));
    true
}

impl PaneManifest {
    /// The panes of the tab at `position`, where the manifest holds that tab.
    pub fn of_tab(&self, position: usize) -> (r: Option<&Vec<PaneInfo>>)
        ensures
            match r {
                Some(panes) => self@.contains_key(position) && self@[position] == pane_views(
                    panes@,
                ),
                None => !self@.contains_key(position),
            },
    {
        self.panes.get(&position)
    }

    /// Whether two manifests hold the same panes for the same tabs.
    pub fn same(&self, other: &PaneManifest) -> (r: bool)
        ensures
            r == (self@ == other@),
    {
        let mine = ordered::positions(&self.panes);
        let theirs = ordered::positions(&other.panes);
        assert(self@.dom() =~= self.panes@.dom());
        assert(other@.dom() =~= other.panes@.dom());
        if mine.len() != theirs.len() {
            return false;
        }
        let mut i: usize = 0;
        while i < mine.len()
            invariant
                i <= mine@.len(),
                mine@.len() == theirs@.len(),
                self@.dom() == self.panes@.dom(),
                other@.dom() == other.panes@.dom(),
                ordered::lists(mine@, self@.dom()),
                ordered::lists(theirs@, other@.dom()),
                mine@ == ordered::listing(self@.dom()),
                theirs@ == ordered::listing(other@.dom()),
                forall|j: int|
                    0 <= j < i ==> mine@[j] == theirs@[j] && self@[mine@[j]] == other@[mine@[j]],
            decreases mine@.len() - i,
        {
            if mine[i] != theirs[i] {
                return false;
            }
            assert(self@.dom().contains(mine@[i as int]));
            assert(other@.dom().contains(theirs@[i as int]));
            match (self.of_tab(mine[i]), other.of_tab(mine[i])) {
                (Some(a), Some(b)) => {
                    if !same_panes(a, b) {
                        return false;
                    }
                },
                _ => {
                    return false;
                },
            }
            i = i + 1;
        }
        proof {
            assert(mine@ =~= theirs@);
            assert forall|k: usize| #[trigger] self@.dom().contains(k) <==> other@.dom().contains(
                k,
            ) by {}
            assert forall|k: usize| #[trigger] self@.contains_key(k) implies self@[k] == other@[k] by {
                let j = mine@.index_of(k);
                assert(mine@[j] == k);
            }
            assert(self@ =~= other@);
        }
        true
    }
}

/// What the keyboard acts on.
#[derive(Clone, Copy, Debug, PartialEq, Eq, Structural)]
pub enum InputMode {
    Normal,
    Locked,
    Resize,
    Pane,
    Tab,
    Scroll,
    EnterSearch,
    Search,
    RenameTab,
    RenamePane,
    Session,
    Move,
    Prompt,
    Tmux,
}

/// The mode, and the name of the session where it is known.
#[derive(Debug, PartialEq, Eq)]
pub struct ModeInfo {
    pub mode: InputMode,
    pub session_name: Option<String>,
}

impl Default for ModeInfo {
    /// The normal mode of a session whose name is not known.
    fn default() -> (r: Self)
        ensures
            r.mode == InputMode::Normal,
            r.session_name is None,
    {
        ModeInfo { mode: InputMode::Normal, session_name: None }
    }
}

/// What the mouse did, with lines and columns.
#[derive(Clone, Copy, Debug, PartialEq, Eq, Structural)]
pub enum Mouse {
    ScrollUp(usize),
    ScrollDown(usize),
    LeftClick(isize, usize),
    RightClick(isize, usize),
    Hold(isize, usize),
    Release(isize, usize),
    Hover(isize, usize),
}

} // verus!

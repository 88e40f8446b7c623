//! What the views of the types say: each holds its fields as they are.

use vstd::prelude::*;

use crate::data;
use crate::data::{PaneInfo, PaneManifest, TabInfo};
use crate::event;
use crate::event::{Action, ActionView, Event, EventView, Outcome, PipeMessage};
use crate::plugin::life::{Drawing, DrawingView};
use crate::plugin::model;
use crate::plugin::model::{PendingTitle, State};
use crate::state::{CommandResult, ZellijState};
use crate::style;
use crate::style::FormattedPart;
use crate::text;
use crate::text_map;

verus! {

/// A text that may be missing is seen as that text, or as missing.
pub proof fn law_optional_texts(s: String)
    ensures
        text::opt(Some(s)) == Some(s@),
        text::opt(None) is None,
{
}

/// A tab is seen with all that it holds.
pub proof fn law_view_of_tabs(tab: TabInfo)
    ensures
        tab@.position == tab.position,
        tab@.name == tab.name@,
        tab@.active == tab.active,
        tab@.panes_to_hide == tab.panes_to_hide,
        tab@.is_fullscreen_active == tab.is_fullscreen_active,
        tab@.is_sync_panes_active == tab.is_sync_panes_active,
        tab@.are_floating_panes_visible == tab.are_floating_panes_visible,
        tab@.other_focused_clients == tab.other_focused_clients@,
        tab@.active_swap_layout_name == text::opt(tab.active_swap_layout_name),
        tab@.is_swap_layout_dirty == tab.is_swap_layout_dirty,
        tab@.viewport_rows == tab.viewport_rows,
        tab@.viewport_columns == tab.viewport_columns,
        tab@.display_area_rows == tab.display_area_rows,
        tab@.display_area_columns == tab.display_area_columns,
        tab@.selectable_tiled_panes_count == tab.selectable_tiled_panes_count,
        tab@.selectable_floating_panes_count == tab.selectable_floating_panes_count,
{
}

/// A pane is seen with all that it holds.
pub proof fn law_view_of_panes(pane: PaneInfo)
    ensures
        pane@.id == pane.id,
        pane@.is_plugin == pane.is_plugin,
        pane@.is_focused == pane.is_focused,
        pane@.is_fullscreen == pane.is_fullscreen,
        pane@.is_floating == pane.is_floating,
        pane@.is_suppressed == pane.is_suppressed,
        pane@.title == pane.title@,
        pane@.exited == pane.exited,
        pane@.exit_status == pane.exit_status,
        pane@.is_held == pane.is_held,
        pane@.pane_x == pane.pane_x,
        pane@.pane_content_x == pane.pane_content_x,
        pane@.pane_y == pane.pane_y,
        pane@.pane_content_y == pane.pane_content_y,
        pane@.pane_rows == pane.pane_rows,
        pane@.pane_content_rows == pane.pane_content_rows,
        pane@.pane_columns == pane.pane_columns,
        pane@.pane_content_columns == pane.pane_content_columns,
        pane@.cursor_coordinates_in_pane == pane.cursor_coordinates_in_pane,
        pane@.terminal_command == text::opt(pane.terminal_command),
        pane@.plugin_url == text::opt(pane.plugin_url),
        pane@.is_selectable == pane.is_selectable,
        pane@.index_in_pane_group == pane.index_in_pane_group@,
{
}

/// Lists are seen member by member, and the panes of each tab under the position of the tab.
pub proof fn law_view_of_lists(
    tabs: Seq<TabInfo>,
    panes: Seq<PaneInfo>,
    manifest: PaneManifest,
    parts: Seq<FormattedPart>,
    i: int,
    position: usize,
)
    ensures
        data::tab_views(tabs).len() == tabs.len(),
        0 <= i < tabs.len() ==> data::tab_views(tabs)[i] == tabs[i]@,
        data::pane_views(panes).len() == panes.len(),
        0 <= i < panes.len() ==> data::pane_views(panes)[i] == panes[i]@,
        style::views(parts).len() == parts.len(),
        0 <= i < parts.len() ==> style::views(parts)[i] == parts[i]@,
        manifest@.contains_key(position) <==> manifest.panes@.contains_key(position),
        manifest.panes@.contains_key(position) ==> manifest@[position] == data::pane_views(
            manifest.panes@[position]@,
        ),
{
}

/// A part of a format is seen with all that it holds.
pub proof fn law_view_of_parts(part: FormattedPart)
    ensures
        part@.fg == part.fg,
        part@.bg == part.bg,
        part@.effects == part.effects@,
        part@.content == part.content@,
{
}

/// What the bar knows is seen with all that it holds.
pub proof fn law_view_of_states(s: ZellijState, name: Seq<char>, position: usize, id: u32)
    ensures
        s@.cols == s.cols,
        s@.is_current_tab_plugin == s.is_current_tab_plugin,
        s@.mode == s.mode.mode,
        s@.session == text::opt(s.mode.session_name),
        s@.panes == s.panes@,
        s@.plugin_uuid == s.plugin_uuid@,
        s@.tabs == data::tab_views(s.tabs@),
        s@.cache_mask == s.cache_mask,
        s@.spinner_idx == s.spinner_idx,
        s@.command_results.contains_key(name) <==> s.command_results@.contains_key(name),
        s.command_results@.contains_key(name) ==> s@.command_results[name]
            == s.command_results@[name]@,
        s@.overrides.contains_key(position) <==> s.tab_name_overrides@.contains_key(position),
        s.tab_name_overrides@.contains_key(position) ==> {
            &&& s@.overrides[position].contains_key(id) <==> s.tab_name_overrides@[position]@.contains_key(id)
            &&& s.tab_name_overrides@[position]@.contains_key(id) ==> s@.overrides[position][id]
                == s.tab_name_overrides@[position]@[id]@
        },
        s@.fallbacks.contains_key(position) <==> s.tab_name_fallbacks@.contains_key(position),
        s.tab_name_fallbacks@.contains_key(position) ==> {
            &&& s@.fallbacks[position].contains_key(id) <==> s.tab_name_fallbacks@[position]@.contains_key(id)
            &&& s.tab_name_fallbacks@[position]@.contains_key(id) ==> s@.fallbacks[position][id]
                == s.tab_name_fallbacks@[position]@[id]@
        },
{
}

/// What a command left is seen with all that it holds.
pub proof fn law_view_of_results(r: CommandResult)
    ensures
        r@.exit_code == r.exit_code,
        r@.stdout == r.stdout@,
        r@.stderr == r.stderr@,
        r@.context == text_map::texts_of(r.context@),
{
}

/// A title that waits is seen with all that it holds.
pub proof fn law_view_of_waiting_titles(e: PendingTitle)
    ensures
        e@.pane_id == e.pane_id,
        e@.title == e.title@,
        e@.project == text::opt(e.project),
{
}

/// The plugin is seen with all that it holds.
pub proof fn law_view_of_plugins(p: State)
    ensures
        p@.pending_events == event::event_views(p.pending_events@),
        p@.got_permissions == p.got_permissions,
        p@.state == p.state@,
        p@.configuration == text_map::texts_of(p.userspace_configuration@),
        p@.err == text::opt(p.err),
        p@.timer_active == p.timer_active,
        p@.has_command_widgets == p.has_command_widgets,
        p@.poll_interval == p.command_poll_interval_secs,
        p@.pending == model::pending_views(p.pending_pipe_overrides@),
        p@.strays == model::pending_views(p.stray_titles@),
        p@.last_tab_count == p.last_tab_count,
{
}

/// What waits is seen title by title, and what texts a map of texts holds, text by text.
pub proof fn law_view_of_what_waits(
    waiting: Seq<PendingTitle>,
    m: Map<Seq<char>, String>,
    events: Seq<Event>,
    actions: Seq<Action>,
    key: Seq<char>,
    i: int,
)
    ensures
        model::pending_views(waiting).len() == waiting.len(),
        0 <= i < waiting.len() ==> model::pending_views(waiting)[i] == waiting[i]@,
        event::event_views(events).len() == events.len(),
        0 <= i < events.len() ==> event::event_views(events)[i] == events[i]@,
        event::action_views(actions).len() == actions.len(),
        0 <= i < actions.len() ==> event::action_views(actions)[i] == actions[i]@,
        text_map::texts_of(m).contains_key(key) <==> m.contains_key(key),
        m.contains_key(key) ==> text_map::texts_of(m)[key] == m[key]@,
        m.contains_key(key) ==> text_map::setting(m, key) == Some(m[key]@),
        !m.contains_key(key) ==> text_map::setting(m, key) is None,
{
}

/// A message is seen with all that it holds, and its arguments under their names.
pub proof fn law_view_of_messages(m: PipeMessage, key: Seq<char>)
    ensures
        m@.name == m.name@,
        m@.payload == text::opt(m.payload),
        m@.args == text_map::texts_of(m.args@),
        m@.args.contains_key(key) ==> m@.arg(key) == Some(m@.args[key]),
        !m@.args.contains_key(key) ==> m@.arg(key) is None,
{
}

/// An event is seen as what it is, with all that it holds.
pub proof fn law_view_of_events(ev: Event)
    ensures
        match ev {
            Event::Mouse(mouse) => ev@ == EventView::Mouse(mouse),
            Event::ModeUpdate(mode) => ev@ == EventView::ModeUpdate(
                mode.mode,
                text::opt(mode.session_name),
            ),
            Event::PaneUpdate(panes) => ev@ == EventView::PaneUpdate(panes@),
            Event::PermissionRequestResult(granted) => ev@ == EventView::PermissionRequestResult(
                granted,
            ),
            Event::RunCommandResult(exit_code, stdout, stderr, context) => ev@
                == EventView::RunCommandResult(
                exit_code,
                stdout@,
                stderr@,
                text_map::texts_of(context@),
            ),
            Event::SessionUpdate => ev@ is SessionUpdate,
            Event::TabUpdate(tabs) => ev@ == EventView::TabUpdate(data::tab_views(tabs@)),
            Event::Timer => ev@ is Timer,
            Event::Other => ev@ is Other,
        },
{
}

/// What the bar asks for is seen as what it is, with all that it holds.
pub proof fn law_view_of_actions(action: Action, outcome: Outcome, drawing: Drawing)
    ensures
        match action {
            Action::HandleMouse(mouse) => action@ == ActionView::HandleMouse(mouse),
            Action::HideFrames => action@ is HideFrames,
            Action::SetSelectable(selectable) => action@ == ActionView::SetSelectable(selectable),
            Action::SetTimeout(delay) => action@ == ActionView::SetTimeout(delay),
            Action::FocusTerminalPane(id) => action@ == ActionView::FocusTerminalPane(id),
            Action::Send(message) => action@ == ActionView::Send(message@),
            Action::Protocol(input) => action@ == ActionView::Protocol(input@),
        },
        outcome@.render == outcome.render,
        outcome@.actions == event::action_views(outcome.actions@),
        match drawing {
            Drawing::Nothing => drawing@ is Nothing,
            Drawing::Error(what) => drawing@ == DrawingView::Error(what@),
            Drawing::Bar => drawing@ is Bar,
        },
{
}

} // verus!

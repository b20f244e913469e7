//! The models leave nothing out: each is made of the same parts as what it stands for.
use vstd::prelude::*;

use crate::command::{commands_view, Command, CommandView};
use crate::dump::{grid_view, GridBuilder};
use crate::events::{Event, EventView};
use crate::keys::KeyWithModifier;
use crate::panes::{tabs_view, Tab};
use crate::plugin::{strings_view, PaneContents};
use crate::state::{PaneId, State};
use crate::vt::{Action, ActionView};

verus! {

/// A state has the permissions, the panes and the progress of its model.
pub proof fn states_are_modelled(s: State)
    ensures
        s@.permissions_granted == s.permissions_granted,
        s@.self_id == s.self_id,
        s@.host_cwd == s.host_cwd@,
        s@.target == s.target,
        s@.last_focused_terminal == s.last_focused_terminal,
        s@.entered == s.entered,
        s@.loaded == s.loaded,
        s@.colored == s.colored,
        s@.target_geom == s.target_geom,
        s@.target_cursor == s.target_cursor,
        s@.dump_attempts == s.dump_attempts,
        s@.dbg_panes == s.dbg_panes@,
{
}

/// A state has the grid, the cursor, the view, the selection and the queries of its
/// model.
pub proof fn views_are_modelled(s: State)
    ensures
        s@.viewport_start == s.viewport_start,
        s@.needs_initial_scroll == s.needs_initial_scroll,
        s@.grid == grid_view(s.grid@),
        s@.scroll == s.scroll,
        s@.cur_row == s.cur_row,
        s@.cur_col == s.cur_col,
        s@.rows == s.rows,
        s@.cols == s.cols,
        s@.mode == s.mode,
        s.anchor is None ==> s@.anchor is None,
        s.anchor is Some ==> s@.anchor == Some(
            ((s.anchor->0).0 as int, (s.anchor->0).1 as int),
        ),
        s@.search_input == s.search_input@,
        s@.last_query == s.last_query@,
        s@.status == s.status@,
{
}

/// Commands keep their kind and all that they say, and stay in order.
pub proof fn commands_are_modelled(
    commands: Seq<Command>,
    plugin: u32,
    x: usize,
    y: usize,
    cols: usize,
    rows: usize,
    pane: PaneId,
    text: String,
)
    ensures
        (Command::Cover { plugin, x, y, cols, rows })@ == (CommandView::Cover {
            plugin,
            x,
            y,
            cols,
            rows,
        }),
        Command::InterceptKeys@ == CommandView::InterceptKeys,
        Command::ReadScrollback(pane)@ == CommandView::ReadScrollback(pane),
        (Command::DumpScreen { path: text, pane })@ == (CommandView::DumpScreen {
            path: text@,
            pane,
        }),
        Command::SetTimeout@ == CommandView::SetTimeout,
        (Command::ReadDump { path: text })@ == (CommandView::ReadDump { path: text@ }),
        (Command::RemoveDump { path: text })@ == (CommandView::RemoveDump { path: text@ }),
        Command::CopyToClipboard(text)@ == CommandView::CopyToClipboard(text@),
        Command::ClearKeyIntercepts@ == CommandView::ClearKeyIntercepts,
        Command::CloseSelf@ == CommandView::CloseSelf,
        commands_view(commands).len() == commands.len(),
        forall|i: int| 0 <= i < commands.len() ==> #[trigger] commands_view(commands)[i]
            == commands[i]@,
{
}

/// Events keep their kind, the key and the panes that they report.
pub proof fn events_are_modelled(key: KeyWithModifier, tabs: Vec<Tab>)
    ensures
        Event::PermissionGranted@ == EventView::PermissionGranted,
        Event::PermissionDenied@ == EventView::PermissionDenied,
        Event::PaneUpdate(tabs)@ == EventView::PaneUpdate(tabs_view(tabs@)),
        Event::ActionComplete@ == EventView::ActionComplete,
        Event::Timer@ == EventView::Timer,
        Event::Key(key)@ == EventView::Key(key),
        Event::Other@ == EventView::Other,
        tabs_view(tabs@).len() == tabs.len(),
        forall|i: int|
            0 <= i < tabs.len() ==> (#[trigger] tabs_view(tabs@)[i]).position == tabs@[i].position
                && tabs_view(tabs@)[i].panes == tabs@[i].panes@,
{
}

/// The contents of a pane, a grid under construction and the parser's actions keep what
/// they hold.
pub proof fn contents_are_modelled(
    contents: PaneContents,
    strings: Seq<String>,
    builder: GridBuilder,
    c: char,
    byte: u8,
)
    ensures
        contents@.above == strings_view(contents.lines_above_viewport@),
        contents@.viewport == strings_view(contents.viewport@),
        strings_view(strings).len() == strings.len(),
        forall|i: int| 0 <= i < strings.len() ==> #[trigger] strings_view(strings)[i]
            == strings[i]@,
        builder@.lines == grid_view(builder.lines@),
        builder@.cur == builder.cur@,
        builder@.style == builder.style,
        Action::Print(c)@ == ActionView::Print(c),
        Action::Execute(byte)@ == ActionView::Execute(byte),
{
}

} // verus!

//! What copy mode asks of the host.
use vstd::prelude::*;

use crate::state::PaneId;

verus! {

/// One request to the host.
#[derive(Debug, PartialEq, Eq)]
pub enum Command {
    /// Give the plugin pane `plugin` this position and size, without a border.
    Cover { plugin: u32, x: usize, y: usize, cols: usize, rows: usize },
    /// Send all key presses here.
    InterceptKeys,
    /// Read the full scrollback of a pane.
    ReadScrollback(PaneId),
    /// Write the full scrollback of a pane, with its escape sequences, to a file.
    DumpScreen { path: String, pane: PaneId },
    /// Report back after the polling delay.
    SetTimeout,
    /// Read a file.
    ReadDump { path: String },
    /// Delete a file.
    RemoveDump { path: String },
    /// Put a text on the clipboard.
    CopyToClipboard(String),
    /// Send key presses where they go otherwise.
    ClearKeyIntercepts,
    /// Close our own pane.
    CloseSelf,
}

/// The model of a `Command`.
pub enum CommandView {
    Cover { plugin: u32, x: usize, y: usize, cols: usize, rows: usize },
    InterceptKeys,
    ReadScrollback(PaneId),
    DumpScreen { path: Seq<char>, pane: PaneId },
    SetTimeout,
    ReadDump { path: Seq<char> },
    RemoveDump { path: Seq<char> },
    CopyToClipboard(Seq<char>),
    ClearKeyIntercepts,
    CloseSelf,
}

impl View for Command {
    type V = CommandView;

    open spec fn view(&self) -> CommandView {
        match *self {
            Command::Cover { plugin, x, y, cols, rows } => CommandView::Cover {
                plugin,
                x,
                y,
                cols,
                rows,
            },
            Command::InterceptKeys => CommandView::InterceptKeys,
            Command::ReadScrollback(pane) => CommandView::ReadScrollback(pane),
            Command::DumpScreen { path, pane } => CommandView::DumpScreen { path: path@, pane },
            Command::SetTimeout => CommandView::SetTimeout,
            Command::ReadDump { path } => CommandView::ReadDump { path: path@ },
            Command::RemoveDump { path } => CommandView::RemoveDump { path: path@ },
            Command::CopyToClipboard(text) => CommandView::CopyToClipboard(text@),
            Command::ClearKeyIntercepts => CommandView::ClearKeyIntercepts,
            Command::CloseSelf => CommandView::CloseSelf,
        }
    }
}

/// The model of a list of commands.
pub open spec fn commands_view(commands: Seq<Command>) -> Seq<CommandView> {
    commands.map_values(|c: Command| c@)
}

/// Appends a command.
pub(crate) fn push_command(commands: &mut Vec<Command>, command: Command)
    ensures
        commands_view(final(commands)@) == commands_view(old(commands)@).push(command@),
{
    commands.push(command);
    assert(commands_view(commands@) =~= commands_view(old(commands)@).push(command@));
}

} // verus!

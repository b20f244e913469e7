//! A copy mode for a terminal multiplexer: the scrollback of a pane is shown in an
//! overlay, searched, selected with vi-style motions, and yanked to the clipboard.
//!
//! The library holds the logic and asks the host for everything else: an event leads to
//! a list of commands, and what the host reads for a command is handed back.
//!
//! - `text`, `style`, `vt`, `dump`: from the bytes of a pane to a grid of styled cells.
//! - `state`, `selection`, `search`, `keys`: the grid, the cursor, and the keys.
//! - `panes`, `plugin`, `command`, `events`: the target pane, and the course of copy mode.
//! - `render`: what is painted.
//! - `laws`, `entry_laws`: what holds of copy mode as a whole.
//! - `style_laws`, `dump_laws`, `motion_laws`, `search_laws`, `yank_laws`, `paint_laws`,
//!   `host_laws`, `model_laws`: what each operation is for, in terms of what goes in and
//!   what comes out.
pub mod command;
pub mod dump;
pub mod dump_laws;
pub mod entry_laws;
pub mod events;
pub mod host_laws;
pub mod keys;
pub mod laws;
pub mod model_laws;
pub mod motion_laws;
pub mod paint_laws;
pub mod panes;
pub mod plugin;
pub mod render;
pub mod search;
pub mod search_laws;
pub mod selection;
pub mod state;
pub mod style;
pub mod style_laws;
pub mod text;
pub mod vt;
pub mod yank_laws;

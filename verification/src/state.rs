//! The state of copy mode: the grid, the cursor, the view and the selection.
use vstd::prelude::*;

use crate::dump::{grid_view, Cell, Line};

verus! {

/// The identity of a pane.
#[derive(Clone, Copy, Debug, PartialEq, Eq, Structural)]
pub enum PaneId {
    Terminal(u32),
    Plugin(u32),
}

/// What the keys mean.
#[derive(Clone, Copy, Debug, PartialEq, Eq, Structural)]
pub enum Mode {
    Normal,
    /// character-wise visual select
    Visual,
    /// line-wise visual select
    VisualLine,
    /// search input
    Search,
}

impl Default for Mode {
    fn default() -> (r: Self)
        ensures
            r == Mode::Normal,
    {
        Mode::Normal
    }
}

/// The state of copy mode.
pub struct State {
    pub permissions_granted: bool,
    /// Our own pane.
    pub self_id: Option<PaneId>,
    /// The folder that is mounted at `/host` inside the sandbox, as the host names it.
    pub host_cwd: String,
    /// The terminal pane that copy mode is provided for.
    pub target: Option<PaneId>,
    /// The terminal pane that was seen focused last.
    pub last_focused_terminal: Option<PaneId>,
    /// Whether the scrollback has been asked for.
    pub entered: bool,
    /// Whether the scrollback has been parsed into `grid`.
    pub loaded: bool,
    /// Whether `grid` comes from the colored dump.
    pub colored: bool,
    /// Position and size of the target pane: x, y, columns, rows.
    pub target_geom: Option<(usize, usize, usize, usize)>,
    /// The target's own cursor: x, y.
    pub target_cursor: Option<(usize, usize)>,
    /// The grid row at which the target's screen begins.
    pub viewport_start: usize,
    /// Whether the next paint has to scroll to the bottom first.
    pub needs_initial_scroll: bool,
    pub grid: Vec<Line>,
    /// The first visible grid row.
    pub scroll: usize,
    /// The cursor, in grid coordinates.
    pub cur_row: usize,
    pub cur_col: usize,
    /// The size of our pane when it was last painted.
    pub rows: usize,
    pub cols: usize,
    pub mode: Mode,
    /// Where the selection was started: row, column.
    pub anchor: Option<(usize, usize)>,
    /// The query being typed.
    pub search_input: String,
    /// The query that was searched for last.
    pub last_query: String,
    pub status: String,
    /// How often the colored dump has been looked for.
    pub dump_attempts: u32,
    /// The panes of the last update, for diagnosis.
    pub dbg_panes: String,
}

/// The model of a `State`.
#[verifier::ext_equal]
pub struct StateView {
    pub permissions_granted: bool,
    pub self_id: Option<PaneId>,
    pub host_cwd: Seq<char>,
    pub target: Option<PaneId>,
    pub last_focused_terminal: Option<PaneId>,
    pub entered: bool,
    pub loaded: bool,
    pub colored: bool,
    pub target_geom: Option<(usize, usize, usize, usize)>,
    pub target_cursor: Option<(usize, usize)>,
    pub viewport_start: int,
    pub needs_initial_scroll: bool,
    pub grid: Seq<Seq<Cell>>,
    pub scroll: int,
    pub cur_row: int,
    pub cur_col: int,
    pub rows: int,
    pub cols: int,
    pub mode: Mode,
    pub anchor: Option<(int, int)>,
    pub search_input: Seq<char>,
    pub last_query: Seq<char>,
    pub status: Seq<char>,
    pub dump_attempts: int,
    pub dbg_panes: Seq<char>,
}

/// The model of a position.
pub open spec fn position_view(p: Option<(usize, usize)>) -> Option<(int, int)> {
    match p {
        Some(q) => Some((q.0 as int, q.1 as int)),
        None => None,
    }
}

impl View for State {
    type V = StateView;

    open spec fn view(&self) -> StateView {
        StateView {
            permissions_granted: self.permissions_granted,
            self_id: self.self_id,
            host_cwd: self.host_cwd@,
            target: self.target,
            last_focused_terminal: self.last_focused_terminal,
            entered: self.entered,
            loaded: self.loaded,
            colored: self.colored,
            target_geom: self.target_geom,
            target_cursor: self.target_cursor,
            viewport_start: self.viewport_start as int,
            needs_initial_scroll: self.needs_initial_scroll,
            grid: grid_view(self.grid@),
            scroll: self.scroll as int,
            cur_row: self.cur_row as int,
            cur_col: self.cur_col as int,
            rows: self.rows as int,
            cols: self.cols as int,
            mode: self.mode,
            anchor: position_view(self.anchor),
            search_input: self.search_input@,
            last_query: self.last_query@,
            status: self.status@,
            dump_attempts: self.dump_attempts as int,
            dbg_panes: self.dbg_panes@,
        }
    }
}

/// The state before anything has happened.
pub open spec fn initial_state() -> StateView {
    StateView {
        permissions_granted: false,
        self_id: None,
        host_cwd: seq![],
        target: None,
        last_focused_terminal: None,
        entered: false,
        loaded: false,
        colored: false,
        target_geom: None,
        target_cursor: None,
        viewport_start: 0,
        needs_initial_scroll: false,
        grid: seq![],
        scroll: 0,
        cur_row: 0,
        cur_col: 0,
        rows: 0,
        cols: 0,
        mode: Mode::Normal,
        anchor: None,
        search_input: seq![],
        last_query: seq![],
        status: seq![],
        dump_attempts: 0,
        dbg_panes: seq![],
    }
}

impl Default for State {
    fn default() -> (r: Self)
        ensures
            r@ == initial_state(),
    {
        let r = State {
            permissions_granted: false,
            self_id: None,
            host_cwd: String::new(),
            target: None,
            last_focused_terminal: None,
            entered: false,
            loaded: false,
            colored: false,
            target_geom: None,
            target_cursor: None,
            viewport_start: 0,
            needs_initial_scroll: false,
            grid: Vec::new(),
            scroll: 0,
            cur_row: 0,
            cur_col: 0,
            rows: 0,
            cols: 0,
            mode: Mode::Normal,
            anchor: None,
            search_input: String::new(),
            last_query: String::new(),
            status: String::new(),
            dump_attempts: 0,
            dbg_panes: String::new(),
        };
        assert(r@ =~= initial_state());
        r
    }
}

/// The smaller of two numbers.
pub open spec fn smaller(a: int, b: int) -> int {
    if a <= b {
        a
    } else {
        b
    }
}

/// The larger of two numbers.
pub open spec fn larger(a: int, b: int) -> int {
    if a >= b {
        a
    } else {
        b
    }
}

impl StateView {
    /// The number of cells in a row; 0 where there is no such row.
    pub open spec fn line_len(self, row: int) -> int {
        if 0 <= row < self.grid.len() {
            self.grid[row].len() as int
        } else {
            0
        }
    }

    /// The rows that show the grid: all but the status bar's, and at least one.
    pub open spec fn content_rows(self) -> int {
        larger(self.rows - 1, 1)
    }

    /// The cursor moved to the nearest cell: into the last row where it is below the
    /// grid, then to the last column where it is behind the end of the row.
    pub open spec fn clamped(self) -> StateView {
        if self.grid.len() == 0 {
            StateView { cur_row: 0, cur_col: 0, ..self }
        } else {
            let row = smaller(self.cur_row, self.grid.len() - 1);
            let col = smaller(self.cur_col, larger(self.line_len(row) - 1, 0));
            StateView { cur_row: row, cur_col: col, ..self }
        }
    }

    /// The view moved as little as possible for the cursor's row to be visible.
    pub open spec fn scrolled(self) -> StateView {
        if self.cur_row < self.scroll {
            StateView { scroll: self.cur_row, ..self }
        } else if self.cur_row >= self.scroll + self.content_rows() {
            StateView { scroll: self.cur_row + 1 - self.content_rows(), ..self }
        } else {
            self
        }
    }

    /// Whether the cursor is on a cell, or at the start of an empty row or grid.
    pub open spec fn cursor_in_grid(self) -> bool {
        &&& 0 <= self.cur_row <= larger(self.grid.len() - 1, 0)
        &&& 0 <= self.cur_col <= larger(self.line_len(self.cur_row) - 1, 0)
    }

    /// Whether the cursor's row is among those that show the grid.
    pub open spec fn cursor_visible(self) -> bool {
        self.scroll <= self.cur_row < self.scroll + self.content_rows()
    }
}

impl State {
    /// The number of cells in a row; 0 where there is no such row.
    pub fn line_len(&self, row: usize) -> (r: usize)
        ensures
            r == self@.line_len(row as int),
    {
        if row < self.grid.len() {
            self.grid[row].len()
        } else {
            0
        }
    }

    /// The rows that show the grid: all but the status bar's, and at least one.
    pub fn content_rows(&self) -> (r: usize)
        ensures
            r == self@.content_rows(),
    {
        if self.rows > 2 {
            self.rows - 1
        } else {
            1
        }
    }

    /// Moves the cursor to the nearest cell.
    pub fn clamp_cursor(&mut self)
        ensures
            final(self)@ == old(self)@.clamped(),
    {
        if self.grid.is_empty() {
            self.cur_row = 0;
            self.cur_col = 0;
            return;
        }
        if self.cur_row > self.grid.len() - 1 {
            self.cur_row = self.grid.len() - 1;
        }
        let max_col: usize = self.line_len(self.cur_row).saturating_sub(1);
        if self.cur_col > max_col {
            self.cur_col = max_col;
        }
    }

    /// Moves the view as little as possible for the cursor's row to be visible.
    pub fn scroll_to_cursor(&mut self)
        ensures
            final(self)@ == old(self)@.scrolled(),
    {
        let rows: usize = self.content_rows();
        if self.cur_row < self.scroll {
            self.scroll = self.cur_row;
        } else if self.cur_row - self.scroll >= rows {
            self.scroll = self.cur_row - (rows - 1);
        }
    }
}

/// Whether the position `a` comes before `b` in reading order, or is `b`.
pub open spec fn reads_before(a: (int, int), b: (int, int)) -> bool {
    a.0 < b.0 || (a.0 == b.0 && a.1 <= b.1)
}

impl StateView {
    /// The ends of the selection, in reading order: the anchor and the cursor.
    pub open spec fn selection(self) -> Option<((int, int), (int, int))> {
        match self.anchor {
            None => None,
            Some(anchor) => {
                let cur = (self.cur_row, self.cur_col);
                if reads_before(anchor, cur) {
                    Some((anchor, cur))
                } else {
                    Some((cur, anchor))
                }
            },
        }
    }

    /// Whether a cell is part of the selection: between its ends, both of them
    /// included, or in a row between those of its ends where rows are selected.
    pub open spec fn is_selected(self, row: int, col: int) -> bool {
        match self.selection() {
            None => false,
            Some((start, end)) => match self.mode {
                Mode::VisualLine => start.0 <= row <= end.0,
                Mode::Visual => reads_before(start, (row, col)) && reads_before((row, col), end),
                _ => false,
            },
        }
    }

    /// The state in which `mode` has been switched on at the cursor, or off.
    pub open spec fn toggled(self, mode: Mode) -> StateView {
        if self.mode == mode {
            StateView { mode: Mode::Normal, anchor: None, ..self }
        } else {
            StateView { mode: mode, anchor: Some((self.cur_row, self.cur_col)), ..self }
        }
    }
}

impl State {
    /// The ends of the selection, in reading order.
    pub fn selection(&self) -> (r: Option<((usize, usize), (usize, usize))>)
        ensures
            match r {
                None => self@.selection() is None,
                Some((start, end)) => self@.selection() == Some(
                    ((start.0 as int, start.1 as int), (end.0 as int, end.1 as int)),
                ),
            },
    {
        match self.anchor {
            None => None,
            Some(anchor) => {
                let cur = (self.cur_row, self.cur_col);
                if anchor.0 < cur.0 || (anchor.0 == cur.0 && anchor.1 <= cur.1) {
                    Some((anchor, cur))
                } else {
                    Some((cur, anchor))
                }
            },
        }
    }

    /// Whether a cell is part of the selection.
    pub fn is_selected(&self, row: usize, col: usize) -> (r: bool)
        ensures
            r == self@.is_selected(row as int, col as int),
    {
        match self.selection() {
            None => false,
            Some((start, end)) => match self.mode {
                Mode::VisualLine => row >= start.0 && row <= end.0,
                Mode::Visual => {
                    let after_start = row > start.0 || (row == start.0 && col >= start.1);
                    let before_end = row < end.0 || (row == end.0 && col <= end.1);
                    after_start && before_end
                },
                _ => false,
            },
        }
    }

    /// Switches `mode` on, with the selection starting at the cursor, or off again.
    pub fn toggle_visual(&mut self, mode: Mode)
        ensures
            final(self)@ == old(self)@.toggled(mode),
    {
        if self.mode == mode {
            self.mode = Mode::Normal;
            self.anchor = None;
        } else {
            self.mode = mode;
            self.anchor = Some((self.cur_row, self.cur_col));
        }
    }
}

} // verus!

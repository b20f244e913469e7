//! The keys: motions, selection, yank and search.
use vstd::prelude::*;
use vstd::string::*;

use crate::command::{commands_view, Command, CommandView};
use crate::dump::Cell;
use crate::laws::keys_keep_the_cursor;
use crate::state::{larger, Mode, State, StateView};
use crate::text::whitespace;

verus! {

/// A key, without its modifiers. Keys that copy mode has no use for are `Other`.
#[derive(Clone, Copy, Debug, PartialEq, Eq, Structural)]
pub enum BareKey {
    Left,
    Right,
    Up,
    Down,
    Backspace,
    Enter,
    Esc,
    Char(char),
    Other,
}

/// A key press: the key, and whether Ctrl was held.
#[derive(Clone, Copy, Debug, PartialEq, Eq, Structural)]
pub struct KeyWithModifier {
    pub bare_key: BareKey,
    pub ctrl: bool,
}

/// The first column from `i` on at which a run of blanks, or of other characters, is
/// over.
pub open spec fn run_end(line: Seq<Cell>, i: int, blank: bool) -> int
    decreases line.len() - i,
{
    if 0 <= i < line.len() && whitespace(line[i].ch) == blank {
        run_end(line, i + 1, blank)
    } else {
        i
    }
}

/// The column at which a run of blanks, or of other characters, that ends before `i`
/// begins.
pub open spec fn run_start(line: Seq<Cell>, i: int, blank: bool) -> int
    decreases i,
{
    if 0 < i <= line.len() && whitespace(line[i - 1].ch) == blank {
        run_start(line, i - 1, blank)
    } else {
        i
    }
}

/// What a key does: the state it leaves, whether it means anything, and what is asked
/// of the host.
pub struct KeyEffect {
    pub state: StateView,
    pub handled: bool,
    pub commands: Seq<CommandView>,
}

/// What leaving copy mode asks of the host.
pub open spec fn exit_commands() -> Seq<CommandView> {
    seq![CommandView::ClearKeyIntercepts, CommandView::CloseSelf]
}

impl StateView {
    /// The cells of the cursor's row; none where there is no such row.
    pub open spec fn cursor_line(self) -> Seq<Cell> {
        if 0 <= self.cur_row < self.grid.len() {
            self.grid[self.cur_row]
        } else {
            seq![]
        }
    }

    /// The cursor behind the word it is on and the blanks after that, or at the start of
    /// the next row where nothing follows on this one.
    pub open spec fn word_forward(self) -> StateView {
        let line = self.cursor_line();
        let next = run_end(line, run_end(line, self.cur_col, false), true);
        if next >= line.len() && self.cur_row + 1 < self.grid.len() {
            StateView { cur_row: self.cur_row + 1, cur_col: 0, ..self }
        } else {
            StateView { cur_col: next, ..self }
        }
    }

    /// The cursor at the start of the word before it.
    pub open spec fn word_back(self) -> StateView {
        let line = self.cursor_line();
        StateView { cur_col: run_start(line, run_start(line, self.cur_col, true), false), ..self }
    }

    /// The rows of a page: those of the pane, and at least one.
    pub open spec fn page(self) -> int {
        larger(self.rows, 1)
    }

    /// The rows of half a page, and at least one.
    pub open spec fn half_page(self) -> int {
        larger(self.page() / 2, 1)
    }

    /// The cursor `n` rows further down, or up where `n` is negative, but not above the
    /// first row.
    pub open spec fn down(self, n: int) -> StateView {
        StateView { cur_row: larger(self.cur_row + n, 0), ..self }
    }

    /// The cursor in column `col`, but not before the first.
    pub open spec fn at_column(self, col: int) -> StateView {
        StateView { cur_col: larger(col, 0), ..self }
    }

    /// What yanking the selection asks of the host: to copy the text of the selection,
    /// unless it is empty, and to leave copy mode.
    pub open spec fn yank_commands(self) -> Seq<CommandView> {
        if self.selected_text().len() == 0 {
            exit_commands()
        } else {
            seq![CommandView::CopyToClipboard(self.selected_text())] + exit_commands()
        }
    }

    /// Where a key that is not search input takes the cursor, and what else it changes,
    /// before the cursor is brought back into the grid and into view. `None` for a key
    /// that means nothing.
    pub open spec fn after_key(self, key: KeyWithModifier) -> Option<StateView> {
        match key.bare_key {
            BareKey::Esc => if self.mode == Mode::Normal {
                Some(self)
            } else {
                Some(StateView { mode: Mode::Normal, anchor: None, ..self })
            },
            BareKey::Left => Some(self.at_column(self.cur_col - 1)),
            BareKey::Right => Some(self.at_column(self.cur_col + 1)),
            BareKey::Down => Some(self.down(1)),
            BareKey::Up => Some(self.down(-1)),
            BareKey::Enter => Some(self),
            BareKey::Char(c) => self.after_char(c, key.ctrl),
            _ => None,
        }
    }

    /// The same for a character key.
    pub open spec fn after_char(self, c: char, ctrl: bool) -> Option<StateView> {
        if c == 'q' || c == 'y' {
            Some(self)
        } else if c == 'h' {
            Some(self.at_column(self.cur_col - 1))
        } else if c == 'l' {
            Some(self.at_column(self.cur_col + 1))
        } else if c == 'j' {
            Some(self.down(1))
        } else if c == 'k' {
            Some(self.down(-1))
        } else if c == '0' {
            Some(self.at_column(0))
        } else if c == '$' {
            Some(self.at_column(self.line_len(self.cur_row) - 1))
        } else if c == 'd' && ctrl {
            Some(self.down(self.half_page()))
        } else if c == 'u' && ctrl {
            Some(self.down(-self.half_page()))
        } else if c == 'f' && ctrl {
            Some(self.down(self.page()))
        } else if c == 'b' && ctrl {
            Some(self.down(-self.page()))
        } else if c == 'w' {
            Some(self.word_forward())
        } else if c == 'b' {
            Some(self.word_back())
        } else if c == 'g' {
            Some(StateView { cur_row: 0, ..self })
        } else if c == 'G' {
            Some(StateView { cur_row: larger(self.grid.len() - 1, 0), ..self })
        } else if c == 'v' {
            Some(self.toggled(Mode::Visual))
        } else if c == 'V' {
            Some(self.toggled(Mode::VisualLine))
        } else if c == '/' {
            Some(StateView { mode: Mode::Search, search_input: seq![], status: "/"@, ..self })
        } else if c == 'n' {
            Some(self.searched(true))
        } else if c == 'N' {
            Some(self.searched(false))
        } else {
            None
        }
    }

    /// Whether the key, which is not search input, leaves copy mode.
    pub open spec fn leaves(self, key: KeyWithModifier) -> bool {
        key.bare_key == BareKey::Char('q') || (key.bare_key == BareKey::Esc && self.mode
            == Mode::Normal)
    }

    /// Whether the key, which is not search input, yanks the selection.
    pub open spec fn yanks(self, key: KeyWithModifier) -> bool {
        self.anchor is Some && (key.bare_key == BareKey::Char('y') || key.bare_key
            == BareKey::Enter)
    }

    /// What a key does.
    pub open spec fn handle_key(self, key: KeyWithModifier) -> KeyEffect {
        if self.mode == Mode::Search {
            self.handle_search_key(key)
        } else if self.yanks(key) {
            KeyEffect { state: self, handled: true, commands: self.yank_commands() }
        } else {
            match self.after_key(key) {
                None => KeyEffect { state: self, handled: false, commands: seq![] },
                Some(next) => KeyEffect {
                    state: next.clamped().scrolled(),
                    handled: true,
                    commands: if self.leaves(key) {
                        exit_commands()
                    } else {
                        seq![]
                    },
                },
            }
        }
    }

    /// The query taken over from the input, and the search input left.
    pub open spec fn query_entered(self) -> StateView {
        StateView {
            last_query: self.search_input,
            search_input: seq![],
            mode: Mode::Normal,
            ..self
        }
    }

    /// The search input changed to `input`, and shown.
    pub open spec fn with_input(self, input: Seq<char>) -> StateView {
        StateView { search_input: input, status: "/"@ + input, ..self }
    }

    /// What a key does while a query is typed.
    pub open spec fn handle_search_key(self, key: KeyWithModifier) -> KeyEffect {
        let next = match key.bare_key {
            BareKey::Esc => Some(
                StateView { mode: Mode::Normal, search_input: seq![], status: "COPY"@, ..self },
            ),
            BareKey::Enter => Some(self.query_entered().searched(true)),
            BareKey::Backspace => Some(
                self.with_input(
                    if self.search_input.len() > 0 {
                        self.search_input.drop_last()
                    } else {
                        self.search_input
                    },
                ),
            ),
            BareKey::Char(c) => Some(self.with_input(self.search_input.push(c))),
            _ => None,
        };
        match next {
            None => KeyEffect { state: self, handled: false, commands: seq![] },
            Some(state) => KeyEffect { state, handled: true, commands: seq![] },
        }
    }
}

/// The lengths of the grid and of its rows are machine numbers.
proof fn lengths_fit(s: State)
    ensures
        s@.grid.len() <= usize::MAX,
        forall|row: int| s@.line_len(row) <= usize::MAX,
{
    assert(s.grid@.len() == s.grid.len());
    assert forall|row: int| s@.line_len(row) <= usize::MAX by {
        if 0 <= row < s.grid.len() {
            assert(s@.grid[row].len() == s.grid@[row].len());
        }
    }
}

/// What a key press came to: whether it means anything, and what is asked of the host.
pub struct KeyReply {
    pub handled: bool,
    pub commands: Vec<Command>,
}

impl State {
    /// What leaving copy mode asks of the host: to give the keys back and to close our
    /// own pane. The target pane was never touched.
    pub fn exit(&self) -> (r: Vec<Command>)
        ensures
            commands_view(r@) == exit_commands(),
    {
        let mut commands: Vec<Command> = Vec::new();
        commands.push(Command::ClearKeyIntercepts);
        commands.push(Command::CloseSelf);
        assert(commands_view(commands@) =~= exit_commands());
        commands
    }

    /// What yanking the selection asks of the host.
    pub fn yank(&self) -> (r: Vec<Command>)
        ensures
            commands_view(r@) == self@.yank_commands(),
    {
        let text = self.selected_text();
        let mut commands: Vec<Command> = Vec::new();
        if !text.as_str().is_empty() {
            commands.push(Command::CopyToClipboard(text));
        }
        let mut exit = self.exit();
        commands.append(&mut exit);
        assert(commands_view(commands@) =~= self@.yank_commands());
        commands
    }

    /// The column from `from` on at which a run of blanks, or of other characters, in the
    /// cursor's row is over.
    fn run_end(&self, from: usize, blank: bool) -> (r: usize)
        ensures
            r == run_end(self@.cursor_line(), from as int, blank),
            from <= r,
    {
        if self.cur_row >= self.grid.len() {
            return from;
        }
        let line = &self.grid[self.cur_row];
        assert(self@.cursor_line() == line@);
        let mut i: usize = from;
        while i < line.len() && line[i].ch.is_whitespace() == blank
            invariant
                from <= i,
                line@ == self@.cursor_line(),
                run_end(line@, i as int, blank) == run_end(line@, from as int, blank),
            decreases line.len() - i,
        {
            i = i + 1;
        }
        i
    }

    /// The column at which a run of blanks, or of other characters, in the cursor's row
    /// that ends before `from` begins.
    fn run_start(&self, from: usize, blank: bool) -> (r: usize)
        ensures
            r == run_start(self@.cursor_line(), from as int, blank),
            r <= from,
    {
        if self.cur_row >= self.grid.len() {
            return from;
        }
        let line = &self.grid[self.cur_row];
        assert(self@.cursor_line() == line@);
        let mut i: usize = from;
        while i > 0 && i <= line.len() && line[i - 1].ch.is_whitespace() == blank
            invariant
                i <= from,
                line@ == self@.cursor_line(),
                run_start(line@, i as int, blank) == run_start(line@, from as int, blank),
            decreases i,
        {
            i = i - 1;
        }
        i
    }

    /// Moves the cursor to the next word.
    pub fn word_forward(&mut self)
        ensures
            final(self)@ == old(self)@.word_forward(),
    {
        let word_end: usize = self.run_end(self.cur_col, false);
        let next: usize = self.run_end(word_end, true);
        let len: usize = self.line_len(self.cur_row);
        if next >= len && self.cur_row < self.grid.len() && self.grid.len() - self.cur_row > 1 {
            self.cur_row = self.cur_row + 1;
            self.cur_col = 0;
        } else {
            self.cur_col = next;
        }
    }

    /// Moves the cursor to the start of the word before it.
    pub fn word_back(&mut self)
        ensures
            final(self)@ == old(self)@.word_back(),
    {
        let word_end: usize = self.run_start(self.cur_col, true);
        self.cur_col = self.run_start(word_end, false);
    }

    /// Moves the cursor down, short of bringing it back into the grid.
    fn move_down(&mut self, n: usize)
        ensures
            final(self)@.clamped() == old(self)@.down(n as int).clamped(),
    {
        proof {
            lengths_fit(*self);
        }
        self.cur_row = self.cur_row.saturating_add(n);
    }

    /// Moves the cursor to the right, short of bringing it back into the grid.
    fn move_right(&mut self)
        ensures
            final(self)@.clamped() == old(self)@.at_column(old(self)@.cur_col + 1).clamped(),
    {
        proof {
            lengths_fit(*self);
        }
        self.cur_col = self.cur_col.saturating_add(1);
    }

    /// Carries out a key that is not search input and does not yank, short of bringing
    /// the cursor back into the grid and into view. `false` for a key that means nothing.
    fn apply_key(&mut self, key: KeyWithModifier) -> (r: bool)
        requires
            old(self).mode != Mode::Search,
        ensures
            match old(self)@.after_key(key) {
                Some(next) => r && final(self)@.clamped() == next.clamped(),
                None => !r && final(self)@ == old(self)@,
            },
    {
        let page: usize = if self.rows > 1 {
            self.rows
        } else {
            1
        };
        let half: usize = if page > 3 {
            page / 2
        } else {
            1
        };
        match key.bare_key {
            BareKey::Esc => {
                if self.mode != Mode::Normal {
                    self.mode = Mode::Normal;
                    self.anchor = None;
                }
            },
            BareKey::Char('q') | BareKey::Char('y') | BareKey::Enter => {},
            BareKey::Char('h') | BareKey::Left => {
                self.cur_col = self.cur_col.saturating_sub(1);
            },
            BareKey::Char('l') | BareKey::Right => {
                self.move_right();
            },
            BareKey::Char('j') | BareKey::Down => {
                self.move_down(1);
            },
            BareKey::Char('k') | BareKey::Up => {
                self.cur_row = self.cur_row.saturating_sub(1);
            },
            BareKey::Char('0') => {
                self.cur_col = 0;
            },
            BareKey::Char('$') => {
                self.cur_col = self.line_len(self.cur_row).saturating_sub(1);
            },
            // The scroll motions with Ctrl come before the plain `b`.
            BareKey::Char('d') if key.ctrl => {
                self.move_down(half);
            },
            BareKey::Char('u') if key.ctrl => {
                self.cur_row = self.cur_row.saturating_sub(half);
            },
            BareKey::Char('f') if key.ctrl => {
                self.move_down(page);
            },
            BareKey::Char('b') if key.ctrl => {
                self.cur_row = self.cur_row.saturating_sub(page);
            },
            BareKey::Char('w') => self.word_forward(),
            BareKey::Char('b') => self.word_back(),
            BareKey::Char('g') => {
                self.cur_row = 0;
            },
            BareKey::Char('G') => {
                self.cur_row = self.grid.len().saturating_sub(1);
            },
            BareKey::Char('v') => self.toggle_visual(Mode::Visual),
            BareKey::Char('V') => self.toggle_visual(Mode::VisualLine),
            BareKey::Char('/') => {
                self.mode = Mode::Search;
                self.search_input = String::new();
                self.status = "/".to_owned();
            },
            BareKey::Char('n') => self.run_search(true),
            BareKey::Char('N') => self.run_search(false),
            _ => {
                return false;
            },
        }
        true
    }

    /// Carries out a key press.
    pub fn handle_key(&mut self, key: KeyWithModifier) -> (r: KeyReply)
        ensures
            final(self)@ == old(self)@.handle_key(key).state,
            r.handled == old(self)@.handle_key(key).handled,
            commands_view(r.commands@) == old(self)@.handle_key(key).commands,
            old(self)@.cursor_in_grid() ==> final(self)@.cursor_in_grid(),
    {
        if self.mode == Mode::Search {
            return self.handle_search_key(key);
        }
        let mut commands: Vec<Command> = Vec::new();
        assert(commands_view(commands@) =~= seq![]);
        match key.bare_key {
            BareKey::Char('y') | BareKey::Enter => {
                if self.anchor.is_some() {
                    return KeyReply { handled: true, commands: self.yank() };
                }
            },
            BareKey::Char('q') => {
                commands = self.exit();
            },
            BareKey::Esc => {
                if self.mode == Mode::Normal {
                    commands = self.exit();
                }
            },
            _ => {},
        }
        if !self.apply_key(key) {
            return KeyReply { handled: false, commands };
        }
        self.clamp_cursor();
        self.scroll_to_cursor();
        proof {
            keys_keep_the_cursor(old(self)@, key);
        }
        KeyReply { handled: true, commands }
    }

    /// Carries out a key press while a query is typed.
    pub fn handle_search_key(&mut self, key: KeyWithModifier) -> (r: KeyReply)
        ensures
            final(self)@ == old(self)@.handle_search_key(key).state,
            r.handled == old(self)@.handle_search_key(key).handled,
            commands_view(r.commands@) == old(self)@.handle_search_key(key).commands,
            old(self)@.cursor_in_grid() ==> final(self)@.cursor_in_grid(),
    {
        let commands: Vec<Command> = Vec::new();
        assert(commands_view(commands@) =~= seq![]);
        match key.bare_key {
            BareKey::Esc => {
                self.mode = Mode::Normal;
                self.search_input = String::new();
                self.status = "COPY".to_owned();
            },
            BareKey::Enter => {
                let mut query = String::new();
                std::mem::swap(&mut query, &mut self.search_input);
                self.last_query = query;
                self.mode = Mode::Normal;
                assert(self@ =~= old(self)@.query_entered());
                self.run_search(true);
            },
            BareKey::Backspace => {
                let _ = self.search_input.pop();
                self.show_input();
            },
            BareKey::Char(c) => {
                self.search_input.push(c);
                self.show_input();
            },
            _ => {
                return KeyReply { handled: false, commands };
            },
        }
        KeyReply { handled: true, commands }
    }

    /// Shows the search input in the status.
    fn show_input(&mut self)
        ensures
            final(self)@ == old(self)@.with_input(old(self)@.search_input),
    {
        let mut status = "/".to_owned();
        status.append(self.search_input.as_str());
        self.status = status;
    }
}

} // verus!

//! Where each key takes the cursor, and what it leaves alone.
use vstd::prelude::*;

use crate::command::CommandView;
use crate::dump::Cell;
use crate::keys::{run_end, run_start, BareKey, KeyWithModifier};
use crate::state::{Mode, StateView};
use crate::text::whitespace;

verus! {

/// A character key, with or without Ctrl.
pub open spec fn char_key(c: char, ctrl: bool) -> KeyWithModifier {
    KeyWithModifier { bare_key: BareKey::Char(c), ctrl }
}

/// A key that is no character.
pub open spec fn other_key(key: BareKey, ctrl: bool) -> KeyWithModifier {
    KeyWithModifier { bare_key: key, ctrl }
}

/// Whether the cursor is on a cell, or at the start of an empty row.
pub open spec fn on_a_cell(s: StateView) -> bool {
    &&& 0 <= s.cur_row < s.grid.len()
    &&& 0 <= s.cur_col
    &&& s.cur_col < s.grid[s.cur_row].len() || s.cur_col == 0
    &&& 0 <= s.scroll
    &&& 0 <= s.rows
}

/// How many rows of the pane show the grid: all but one, which is the status bar's.
pub open spec fn height(rows: int) -> int {
    if rows >= 2 {
        rows - 1
    } else {
        1
    }
}

/// Whether the view has followed the cursor: it stays where it shows the cursor's row,
/// and otherwise that row is the first or the last one that it shows.
pub open spec fn view_follows(before: StateView, after: StateView) -> bool {
    let h = height(before.rows);
    if after.cur_row < before.scroll {
        after.scroll == after.cur_row
    } else if after.cur_row > before.scroll + h - 1 {
        after.scroll + h - 1 == after.cur_row
    } else {
        after.scroll == before.scroll
    }
}

/// Whether the key does nothing but take the cursor to this cell, with the view behind
/// it.
pub open spec fn takes_cursor_to(s: StateView, key: KeyWithModifier, row: int, col: int) -> bool {
    let t = s.handle_key(key).state;
    &&& s.handle_key(key).handled
    &&& s.handle_key(key).commands.len() == 0
    &&& t.cur_row == row
    &&& t.cur_col == col
    &&& view_follows(s, t)
    &&& t == (StateView { cur_row: row, cur_col: col, scroll: t.scroll, ..s })
}

/// The last column of a row; the first where the row is empty.
pub open spec fn last_column(line: Seq<Cell>) -> int {
    if line.len() == 0 {
        0
    } else {
        line.len() - 1
    }
}

/// The cursor's column in another row, which may not reach that far.
pub open spec fn column_in(s: StateView, row: int) -> int {
    if s.cur_col <= last_column(s.grid[row]) {
        s.cur_col
    } else {
        last_column(s.grid[row])
    }
}

/// The row `n` rows below the cursor, or above it where `n` is negative, as far as the
/// grid reaches.
pub open spec fn row_from(s: StateView, n: int) -> int {
    if s.cur_row + n < 0 {
        0
    } else if s.cur_row + n >= s.grid.len() {
        s.grid.len() - 1
    } else {
        s.cur_row + n
    }
}

/// Whether the key takes the cursor down by `n` rows, or up where `n` is negative, but
/// not out of the grid.
pub open spec fn moves_rows(s: StateView, key: KeyWithModifier, n: int) -> bool {
    takes_cursor_to(s, key, row_from(s, n), column_in(s, row_from(s, n)))
}

proof fn motion_lands(
    s: StateView,
    key: KeyWithModifier,
    row: int,
    col: int,
    to_row: int,
    to_col: int,
)
    requires
        s.mode != Mode::Search,
        !s.yanks(key),
        !s.leaves(key),
        s.after_key(key) == Some(StateView { cur_row: row, cur_col: col, ..s }),
        s.grid.len() > 0,
        0 <= row,
        0 <= col,
        0 <= s.rows,
        to_row == if row >= s.grid.len() {
            s.grid.len() - 1
        } else {
            row
        },
        to_col == if col <= last_column(s.grid[to_row]) {
            col
        } else {
            last_column(s.grid[to_row])
        },
    ensures
        takes_cursor_to(s, key, to_row, to_col),
{
    let next = StateView { cur_row: row, cur_col: col, ..s };
    let there = StateView { cur_row: to_row, cur_col: to_col, ..s };
    assert(next.clamped() == there);
    assert(s.handle_key(key).state == there.scrolled());
}

proof fn rows_land(s: StateView, key: KeyWithModifier, n: int)
    requires
        on_a_cell(s),
        s.mode != Mode::Search,
        !s.yanks(key),
        !s.leaves(key),
        s.after_key(key) == Some(s.down(n)),
    ensures
        moves_rows(s, key, n),
{
    let row = if s.cur_row + n < 0 {
        0
    } else {
        s.cur_row + n
    };
    assert(s.down(n) == (StateView { cur_row: row, cur_col: s.cur_col, ..s }));
    motion_lands(s, key, row, s.cur_col, row_from(s, n), column_in(s, row_from(s, n)));
}

/// `j` and the down arrow go one row down, `k` and the up arrow one row up, and stay in
/// the grid.
pub proof fn row_steps(s: StateView, ctrl: bool)
    requires
        on_a_cell(s),
        s.mode != Mode::Search,
    ensures
        moves_rows(s, char_key('j', ctrl), 1),
        moves_rows(s, other_key(BareKey::Down, ctrl), 1),
        moves_rows(s, char_key('k', ctrl), -1),
        moves_rows(s, other_key(BareKey::Up, ctrl), -1),
{
    rows_land(s, char_key('j', ctrl), 1);
    rows_land(s, other_key(BareKey::Down, ctrl), 1);
    rows_land(s, char_key('k', ctrl), -1);
    rows_land(s, other_key(BareKey::Up, ctrl), -1);
}

/// With Ctrl, `f` and `b` go down and up by as many rows as the pane has, and `d` and
/// `u` by half as many; each by one row at least.
pub proof fn page_steps(s: StateView)
    requires
        on_a_cell(s),
        s.mode != Mode::Search,
    ensures
        s.rows >= 1 ==> moves_rows(s, char_key('f', true), s.rows) && moves_rows(
            s,
            char_key('b', true),
            -s.rows,
        ),
        s.rows >= 2 ==> moves_rows(s, char_key('d', true), s.rows / 2) && moves_rows(
            s,
            char_key('u', true),
            -(s.rows / 2),
        ),
        s.rows == 0 ==> moves_rows(s, char_key('f', true), 1) && moves_rows(
            s,
            char_key('b', true),
            -1,
        ),
        s.rows <= 1 ==> moves_rows(s, char_key('d', true), 1) && moves_rows(
            s,
            char_key('u', true),
            -1,
        ),
{
    rows_land(s, char_key('f', true), s.page());
    rows_land(s, char_key('b', true), -s.page());
    rows_land(s, char_key('d', true), s.half_page());
    rows_land(s, char_key('u', true), -s.half_page());
}

/// `h` and the left arrow go one column to the left, `l` and the right arrow one to the
/// right, and stay in the row.
pub proof fn column_steps(s: StateView, ctrl: bool)
    requires
        on_a_cell(s),
        s.mode != Mode::Search,
    ensures
        ({
            let left = if s.cur_col == 0 {
                0
            } else {
                s.cur_col - 1
            };
            let right = if s.cur_col == last_column(s.grid[s.cur_row]) {
                s.cur_col
            } else {
                s.cur_col + 1
            };
            &&& takes_cursor_to(s, char_key('h', ctrl), s.cur_row, left)
            &&& takes_cursor_to(s, other_key(BareKey::Left, ctrl), s.cur_row, left)
            &&& takes_cursor_to(s, char_key('l', ctrl), s.cur_row, right)
            &&& takes_cursor_to(s, other_key(BareKey::Right, ctrl), s.cur_row, right)
        }),
{
    let r = s.cur_row;
    let left = if s.cur_col == 0 {
        0
    } else {
        s.cur_col - 1
    };
    let right = if s.cur_col == last_column(s.grid[s.cur_row]) {
        s.cur_col
    } else {
        s.cur_col + 1
    };
    motion_lands(s, char_key('h', ctrl), r, left, r, left);
    motion_lands(s, other_key(BareKey::Left, ctrl), r, left, r, left);
    motion_lands(s, char_key('l', ctrl), r, s.cur_col + 1, r, right);
    motion_lands(s, other_key(BareKey::Right, ctrl), r, s.cur_col + 1, r, right);
}

/// `0` goes to the first column of the row and `$` to the last one; `g` goes to the
/// first row and `G` to the last one, in the same column where the row has it.
pub proof fn far_steps(s: StateView, ctrl: bool)
    requires
        on_a_cell(s),
        s.mode != Mode::Search,
    ensures
        takes_cursor_to(s, char_key('0', ctrl), s.cur_row, 0),
        takes_cursor_to(s, char_key('$', ctrl), s.cur_row, last_column(s.grid[s.cur_row])),
        takes_cursor_to(s, char_key('g', ctrl), 0, column_in(s, 0)),
        takes_cursor_to(
            s,
            char_key('G', ctrl),
            s.grid.len() - 1,
            column_in(s, s.grid.len() - 1),
        ),
{
    let r = s.cur_row;
    let c = s.cur_col;
    let end = last_column(s.grid[r]);
    let bottom = s.grid.len() - 1;
    motion_lands(s, char_key('0', ctrl), r, 0, r, 0);
    motion_lands(s, char_key('$', ctrl), r, end, r, end);
    motion_lands(s, char_key('g', ctrl), 0, c, 0, column_in(s, 0));
    motion_lands(s, char_key('G', ctrl), bottom, c, bottom, column_in(s, bottom));
}

/// Whether a word starts in this column: no blank, behind a blank or at the start of the
/// row.
pub open spec fn starts_word(line: Seq<Cell>, col: int) -> bool {
    &&& 0 <= col < line.len()
    &&& !whitespace(line[col].ch)
    &&& col == 0 || whitespace(line[col - 1].ch)
}

proof fn run_end_is(line: Seq<Cell>, i: int, blank: bool)
    requires
        0 <= i <= line.len(),
    ensures
        i <= run_end(line, i, blank) <= line.len(),
        forall|k: int|
            i <= k < run_end(line, i, blank) ==> whitespace((#[trigger] line[k]).ch) == blank,
        run_end(line, i, blank) < line.len() ==> whitespace(line[run_end(line, i, blank)].ch)
            != blank,
    decreases line.len() - i,
{
    if i < line.len() && whitespace(line[i].ch) == blank {
        run_end_is(line, i + 1, blank);
    }
}

proof fn run_start_is(line: Seq<Cell>, i: int, blank: bool)
    requires
        0 <= i <= line.len(),
    ensures
        0 <= run_start(line, i, blank) <= i,
        forall|k: int|
            run_start(line, i, blank) <= k < i ==> whitespace((#[trigger] line[k]).ch) == blank,
        run_start(line, i, blank) > 0 ==> whitespace(
            line[run_start(line, i, blank) - 1].ch,
        ) != blank,
    decreases i,
{
    if 0 < i && whitespace(line[i - 1].ch) == blank {
        run_start_is(line, i - 1, blank);
    }
}

/// `w` goes to the next word that starts in the cursor's row. Where none does, it goes to
/// the start of the next row, and in the last row to the end of that.
pub proof fn w_goes_to_the_next_word(s: StateView, ctrl: bool)
    requires
        on_a_cell(s),
        s.mode != Mode::Search,
    ensures
        ({
            let line = s.grid[s.cur_row];
            let t = s.handle_key(char_key('w', ctrl)).state;
            &&& takes_cursor_to(s, char_key('w', ctrl), t.cur_row, t.cur_col)
            &&& forall|i: int|
                s.cur_col < i < line.len() && #[trigger] starts_word(line, i) ==> t.cur_row
                    == s.cur_row && s.cur_col < t.cur_col <= i && starts_word(line, t.cur_col)
            &&& (forall|i: int| s.cur_col < i < line.len() ==> !#[trigger] starts_word(line, i))
                ==> if s.cur_row + 1 < s.grid.len() {
                t.cur_row == s.cur_row + 1 && t.cur_col == 0
            } else {
                t.cur_row == s.cur_row && t.cur_col == last_column(line)
            }
        }),
{
    let key = char_key('w', ctrl);
    let line = s.grid[s.cur_row];
    let c = s.cur_col;
    let word_end = run_end(line, c, false);
    let next = run_end(line, word_end, true);
    run_end_is(line, c, false);
    run_end_is(line, word_end, true);
    assert(s.cursor_line() == line);
    assert(s.after_key(key) == Some(s.word_forward()));
    assert forall|i: int| c < i < line.len() && #[trigger] starts_word(line, i) implies next <= i
        && next < line.len() by {
        if i < next {
            if i < word_end {
                assert(whitespace(line[i - 1].ch) == false);
            } else {
                assert(whitespace(line[i].ch) == true);
            }
        }
    }
    if next < line.len() {
        assert(c < next) by {
            if c == next {
                assert(word_end == c);
            }
        }
        assert(starts_word(line, next)) by {
            if next == word_end {
                assert(whitespace(line[word_end].ch) != false);
            } else {
                assert(whitespace(line[next - 1].ch) == true);
            }
        }
        motion_lands(s, key, s.cur_row, next, s.cur_row, next);
    } else if s.cur_row + 1 < s.grid.len() {
        motion_lands(s, key, s.cur_row + 1, 0, s.cur_row + 1, 0);
    } else {
        motion_lands(s, key, s.cur_row, next, s.cur_row, last_column(line));
    }
}

/// `b` goes back to the nearest start of a word in the cursor's row, and to the start of
/// the row where there is none.
pub proof fn b_goes_to_the_word_before(s: StateView)
    requires
        on_a_cell(s),
        s.mode != Mode::Search,
    ensures
        ({
            let line = s.grid[s.cur_row];
            let t = s.handle_key(char_key('b', false)).state;
            &&& takes_cursor_to(s, char_key('b', false), s.cur_row, t.cur_col)
            &&& forall|i: int|
                0 <= i < s.cur_col && #[trigger] starts_word(line, i) ==> i <= t.cur_col
                    < s.cur_col && starts_word(line, t.cur_col)
            &&& (forall|i: int| 0 <= i < s.cur_col ==> !#[trigger] starts_word(line, i))
                ==> t.cur_col == 0
        }),
{
    let key = char_key('b', false);
    let line = s.grid[s.cur_row];
    let c = s.cur_col;
    let word_end = run_start(line, c, true);
    let start = run_start(line, word_end, false);
    run_start_is(line, c, true);
    run_start_is(line, word_end, false);
    assert(s.cursor_line() == line);
    assert(s.after_key(key) == Some(s.word_back()));
    motion_lands(s, key, s.cur_row, start, s.cur_row, start);
    assert forall|i: int| 0 <= i < c && #[trigger] starts_word(line, i) implies i <= start && start
        < word_end by {
        if i > start {
            if i < word_end {
                assert(whitespace(line[i - 1].ch) == false);
            } else {
                assert(whitespace(line[i].ch) == true);
            }
        }
        if start == word_end {
            if word_end > 0 {
                assert(whitespace(line[word_end - 1].ch) != true);
                assert(whitespace(line[start - 1].ch) != false);
            } else {
                assert(whitespace(line[i].ch) == true);
            }
        }
    }
    if start < word_end {
        assert(whitespace(line[start].ch) == false);
        assert(starts_word(line, start));
    } else if start > 0 {
        assert(whitespace(line[word_end - 1].ch) != true);
        assert(whitespace(line[start - 1].ch) != false);
    }
}

/// Whether the key changes the mode and the anchor, and nothing else but the view.
pub open spec fn switches_to(
    s: StateView,
    key: KeyWithModifier,
    mode: Mode,
    anchor: Option<(int, int)>,
) -> bool {
    let t = s.handle_key(key).state;
    &&& s.handle_key(key).handled
    &&& s.handle_key(key).commands.len() == 0
    &&& t.mode == mode
    &&& t.anchor == anchor
    &&& view_follows(s, t)
    &&& t == (StateView { mode, anchor, scroll: t.scroll, ..s })
}

proof fn switch_lands(
    s: StateView,
    key: KeyWithModifier,
    mode: Mode,
    anchor: Option<(int, int)>,
)
    requires
        on_a_cell(s),
        s.mode != Mode::Search,
        !s.yanks(key),
        !s.leaves(key),
        s.after_key(key) == Some(StateView { mode, anchor, ..s }),
    ensures
        switches_to(s, key, mode, anchor),
{
    let next = StateView { mode, anchor, ..s };
    assert(next.clamped() == next);
    assert(s.handle_key(key).state == next.scrolled());
}

/// `v` starts a selection of characters at the cursor and `V` one of rows, also where
/// the other one was there before; each ends its own kind.
pub proof fn visual_keys(s: StateView, ctrl: bool)
    requires
        on_a_cell(s),
        s.mode != Mode::Search,
    ensures
        ({
            let here = Some((s.cur_row, s.cur_col));
            &&& s.mode == Mode::Visual ==> switches_to(s, char_key('v', ctrl), Mode::Normal, None)
            &&& s.mode != Mode::Visual ==> switches_to(s, char_key('v', ctrl), Mode::Visual, here)
            &&& s.mode == Mode::VisualLine ==> switches_to(
                s,
                char_key('V', ctrl),
                Mode::Normal,
                None,
            )
            &&& s.mode != Mode::VisualLine ==> switches_to(
                s,
                char_key('V', ctrl),
                Mode::VisualLine,
                here,
            )
        }),
{
    let here = Some((s.cur_row, s.cur_col));
    let v = char_key('v', ctrl);
    let capital = char_key('V', ctrl);
    assert(s.after_key(v) == Some(s.toggled(Mode::Visual)));
    assert(s.after_key(capital) == Some(s.toggled(Mode::VisualLine)));
    if s.mode == Mode::Visual {
        switch_lands(s, v, Mode::Normal, None);
    } else {
        switch_lands(s, v, Mode::Visual, here);
    }
    if s.mode == Mode::VisualLine {
        switch_lands(s, capital, Mode::Normal, None);
    } else {
        switch_lands(s, capital, Mode::VisualLine, here);
    }
}

/// Escape ends a selection and stays in copy mode; without a selection it leaves copy
/// mode, as `q` always does: the keys are given back and our pane is closed, and nothing
/// else is asked for.
pub proof fn leaving_keys(s: StateView, ctrl: bool)
    requires
        on_a_cell(s),
        s.mode != Mode::Search,
    ensures
        s.mode != Mode::Normal ==> switches_to(
            s,
            other_key(BareKey::Esc, ctrl),
            Mode::Normal,
            None,
        ),
        s.mode == Mode::Normal ==> ({
            let e = s.handle_key(other_key(BareKey::Esc, ctrl));
            &&& e.handled
            &&& e.commands == seq![CommandView::ClearKeyIntercepts, CommandView::CloseSelf]
            &&& e.state == (StateView { scroll: e.state.scroll, ..s })
        }),
        ({
            let e = s.handle_key(char_key('q', ctrl));
            &&& e.handled
            &&& e.commands == seq![CommandView::ClearKeyIntercepts, CommandView::CloseSelf]
            &&& e.state == (StateView { scroll: e.state.scroll, ..s })
        }),
{
    assert(s.after_key(char_key('q', ctrl)) == Some(s));
    assert(s.clamped() == s);
    if s.mode != Mode::Normal {
        switch_lands(s, other_key(BareKey::Esc, ctrl), Mode::Normal, None);
    }
}

/// `/` opens an empty query; the cursor and the selection stay.
pub proof fn slash_opens_a_query(s: StateView, ctrl: bool)
    requires
        on_a_cell(s),
        s.mode != Mode::Search,
    ensures
        ({
            let e = s.handle_key(char_key('/', ctrl));
            &&& e.handled
            &&& e.commands.len() == 0
            &&& e.state.mode == Mode::Search
            &&& e.state.search_input.len() == 0
            &&& e.state.status == "/"@
            &&& view_follows(s, e.state)
            &&& e.state == (StateView {
                mode: Mode::Search,
                search_input: e.state.search_input,
                status: "/"@,
                scroll: e.state.scroll,
                ..s
            })
        }),
{
    let next = StateView { mode: Mode::Search, search_input: seq![], status: "/"@, ..s };
    assert(s.after_key(char_key('/', ctrl)) == Some(next));
    assert(next.clamped() == next);
    assert(s.handle_key(char_key('/', ctrl)).state == next.scrolled());
}

/// Where nothing is selected, `y` and Enter do nothing.
pub proof fn nothing_to_yank(s: StateView, ctrl: bool)
    requires
        on_a_cell(s),
        s.mode != Mode::Search,
        s.anchor is None,
    ensures
        takes_cursor_to(s, char_key('y', ctrl), s.cur_row, s.cur_col),
        takes_cursor_to(s, other_key(BareKey::Enter, ctrl), s.cur_row, s.cur_col),
{
    let r = s.cur_row;
    let c = s.cur_col;
    assert((StateView { cur_row: r, cur_col: c, ..s }) == s);
    motion_lands(s, char_key('y', ctrl), r, c, r, c);
    motion_lands(s, other_key(BareKey::Enter, ctrl), r, c, r, c);
}

/// A cursor that has left the grid goes to the nearest cell, row first; in an empty grid
/// there is only the first place. The view follows the cursor as little as possible. The
/// pane shows the grid in all rows but one, and a row that is not there has no cells.
pub proof fn the_cursor_is_brought_back(s: StateView)
    requires
        0 <= s.cur_row,
        0 <= s.cur_col,
        0 <= s.rows,
    ensures
        ({
            let t = s.clamped();
            let row = if s.cur_row < s.grid.len() {
                s.cur_row
            } else {
                s.grid.len() - 1
            };
            &&& t == (StateView { cur_row: t.cur_row, cur_col: t.cur_col, ..s })
            &&& s.grid.len() == 0 ==> t.cur_row == 0 && t.cur_col == 0
            &&& s.grid.len() > 0 ==> t.cur_row == row && t.cur_col == column_in(s, row)
        }),
        view_follows(s, s.scrolled()),
        s.scrolled() == (StateView { scroll: s.scrolled().scroll, ..s }),
        s.content_rows() == height(s.rows),
        forall|row: int|
            0 <= row < s.grid.len() ==> #[trigger] s.line_len(row) == s.grid[row].len(),
        forall|row: int| row < 0 || row >= s.grid.len() ==> #[trigger] s.line_len(row) == 0,
{
}

/// Whether copy mode has a use for a character key while no query is typed.
pub open spec fn means_something(c: char, ctrl: bool) -> bool {
    ||| c == 'h' || c == 'j' || c == 'k' || c == 'l' || c == '0' || c == '$'
    ||| c == 'w' || c == 'b' || c == 'g' || c == 'G' || c == 'v' || c == 'V'
    ||| c == 'y' || c == '/' || c == 'n' || c == 'N' || c == 'q'
    ||| ctrl && (c == 'd' || c == 'u' || c == 'f')
}

/// A key that copy mode has no use for changes nothing and asks for nothing.
pub proof fn other_keys_mean_nothing(s: StateView, key: KeyWithModifier)
    requires
        s.mode != Mode::Search,
    ensures
        ({
            let known = match key.bare_key {
                BareKey::Char(c) => means_something(c, key.ctrl),
                BareKey::Backspace => false,
                BareKey::Other => false,
                _ => true,
            };
            &&& s.handle_key(key).handled == known
            &&& !known ==> s.handle_key(key).state == s && s.handle_key(key).commands.len() == 0
        }),
{
}

} // verus!

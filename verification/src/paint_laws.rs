//! What a paint shows: the cells of the visible rows, and the status bar.
use vstd::prelude::*;

use crate::dump::{build, Cell};
use crate::motion_laws::height;
use crate::render::{concat_all, painted_rows_read_back};
use crate::selection::row_text;
use crate::state::{smaller, Mode, StateView};
use crate::style::{sgr_sequence, Style};
use crate::text::decimal;
use crate::vt::{all_readable, piece_actions, stream, Piece};

verus! {

/// The cell that a paint has to show: the character as it is, in its own style, with its
/// own reverse attribute turned round under the cursor and where the cell is selected.
pub open spec fn cell_to_show(s: StateView, row: int, col: int) -> Cell {
    let cell = s.grid[row][col];
    let marked = (row == s.cur_row && col == s.cur_col) || s.is_selected(row, col);
    Cell { ch: cell.ch, style: Style { reverse: cell.style.reverse != marked, ..cell.style } }
}

/// How many cells of a row fit into the pane.
pub open spec fn cells_that_fit(s: StateView, row: int) -> int {
    if s.grid[row].len() <= s.cols {
        s.grid[row].len() as int
    } else {
        s.cols
    }
}

/// The style in which a cell is painted is its own, with the reverse attribute turned
/// round exactly where the cell is the cursor's or is selected, by characters or by rows.
pub proof fn marked_cells_are_reversed(s: StateView, row: int, col: int)
    requires
        0 <= row < s.grid.len(),
        0 <= col < s.grid[row].len(),
    ensures
        ({
            let own = s.grid[row][col].style;
            let shown = s.shown_style(row, col);
            &&& shown == cell_to_show(s, row, col).style
            &&& shown.reverse != own.reverse <==> (row == s.cur_row && col == s.cur_col)
                || s.is_selected(row, col)
            &&& s.mode == Mode::VisualLine && s.anchor is Some && ((s.anchor->0).0 <= row
                <= s.cur_row || s.cur_row <= row <= (s.anchor->0).0) ==> shown.reverse
                != own.reverse
        }),
{
}

/// A painted row says what there is to show: read like a dump, it is one row, with the
/// cells that fit into the pane as they are to be shown. No cell may hold a control
/// character.
pub proof fn painted_rows_show_the_cells(s: StateView, row: int)
    requires
        0 <= row < s.grid.len(),
        0 <= s.cols,
        forall|col: int|
            0 <= col < s.grid[row].len() ==> (#[trigger] s.grid[row][col]).ch as u32 >= 32,
    ensures
        exists|pieces: Seq<Piece>|
            all_readable(pieces) && #[trigger] stream(pieces) == s.painted_row(row) && build(
                piece_actions(pieces),
            ) == seq![
                Seq::new(
                    cells_that_fit(s, row) as nat,
                    |col: int| cell_to_show(s, row, col),
                ),
            ],
{
    let n = smaller(s.line_len(row), s.cols);
    let pieces = s.cell_pieces(row, n).push(Piece::Csi(seq![seq![0]], 'm')).push(
        Piece::Char('\r'),
    ).push(Piece::Char('\n'));
    painted_rows_read_back(s, row);
    assert(n == cells_that_fit(s, row));
    let shown = Seq::new(n as nat, |col: int| s.shown_cell(row, col));
    let cells = Seq::new(
        cells_that_fit(s, row) as nat,
        |col: int| cell_to_show(s, row, col),
    );
    assert(shown =~= cells) by {
        assert forall|col: int| 0 <= col < n implies shown[col] == cells[col] by {
            marked_cells_are_reversed(s, row, col);
        }
    }
    assert(stream(pieces) == s.painted_row(row));
}

/// A painted row is made of its cells from the left; a sequence stands only before the
/// first cell and where the style changes. The row ends with a reset and a line break.
pub proof fn rows_are_painted_from_the_left(s: StateView, row: int, n: int)
    requires
        0 <= row < s.grid.len(),
        0 <= n < s.grid[row].len(),
        0 <= s.cols,
    ensures
        ({
            let cell = cell_to_show(s, row, n);
            s.painted_cells(row, n + 1) == if n > 0 && cell.style == cell_to_show(
                s,
                row,
                n - 1,
            ).style {
                s.painted_cells(row, n).push(cell.ch)
            } else {
                s.painted_cells(row, n) + sgr_sequence(cell.style.codes()).push(cell.ch)
            }
        }),
        s.painted_cells(row, 0).len() == 0,
        s.painted_row(row) == s.painted_cells(row, cells_that_fit(s, row)) + seq![
            '\x1b',
            '[',
            '0',
            'm',
            '\r',
            '\n',
        ],
{
    let cell = cell_to_show(s, row, n);
    marked_cells_are_reversed(s, row, n);
    if n > 0 {
        marked_cells_are_reversed(s, row, n - 1);
    }
    assert(s.painted_cells(row, n + 1) =~= if n > 0 && cell.style == cell_to_show(
        s,
        row,
        n - 1,
    ).style {
        s.painted_cells(row, n).push(cell.ch)
    } else {
        s.painted_cells(row, n) + sgr_sequence(cell.style.codes()).push(cell.ch)
    });
    assert(s.painted_row(row) =~= s.painted_cells(row, cells_that_fit(s, row)) + seq![
        '\x1b',
        '[',
        '0',
        'm',
        '\r',
        '\n',
    ]);
}

/// Texts are put one behind the other.
pub proof fn texts_are_appended(texts: Seq<Seq<char>>, text: Seq<char>)
    ensures
        concat_all(Seq::empty()).len() == 0,
        concat_all(texts.push(text)) == concat_all(texts) + text,
{
    assert(texts.push(text).drop_last() =~= texts);
}

/// What stands in row `i` of the pane: a row of the grid, or nothing below its end.
pub open spec fn pane_row(s: StateView, i: int) -> Seq<char> {
    if s.scroll + i < s.grid.len() {
        s.painted_row(s.scroll + i)
    } else {
        seq!['\r', '\n']
    }
}

/// A paint fills the pane: from its first row on the rows of the grid from the first
/// visible one on, in all rows but the last, and the status bar in the last. Before
/// there is anything to show, nothing is painted.
pub proof fn a_paint_fills_the_pane(s: StateView)
    requires
        0 <= s.scroll,
    ensures
        !s.loaded ==> s.frame().len() == 0,
        s.loaded ==> s.frame() == concat_all(
            Seq::new(height(s.rows) as nat, |i: int| pane_row(s, i)),
        ) + s.status_bar(s.cols),
{
    assert(s.painted_rows() =~= Seq::new(height(s.rows) as nat, |i: int| pane_row(s, i)));
}

/// A paint takes note of the size of the pane. The first one that has something to show
/// goes to the bottom of the grid, or only so far that the cursor's row is the first
/// visible one; later ones leave the view as it is.
pub proof fn a_paint_sets_the_view(s: StateView, rows: int, cols: int)
    requires
        0 <= s.cur_row < s.grid.len(),
        0 <= rows,
    ensures
        ({
            let t = s.after_render(rows, cols);
            let first = s.loaded && s.needs_initial_scroll;
            &&& t == (StateView {
                rows,
                cols,
                scroll: t.scroll,
                needs_initial_scroll: s.needs_initial_scroll && !s.loaded,
                ..s
            })
            &&& !first ==> t.scroll == s.scroll
            &&& first && s.grid.len() <= height(rows) ==> t.scroll == 0
            &&& first && s.grid.len() > height(rows) && s.cur_row >= s.grid.len() - height(rows)
                ==> t.scroll + height(rows) == s.grid.len()
            &&& first && s.cur_row < s.grid.len() - height(rows) ==> t.scroll == s.cur_row
        }),
{
}

/// Whether `shown` is the text in a field of `cols` columns: its beginning where it is
/// too long, with spaces behind it where it is too short.
pub open spec fn fills_a_field(text: Seq<char>, shown: Seq<char>, cols: int) -> bool {
    &&& shown.len() == cols
    &&& forall|i: int| 0 <= i < cols && i < text.len() ==> #[trigger] shown[i] == text[i]
    &&& forall|i: int| text.len() <= i < cols ==> #[trigger] shown[i] == ' '
}

/// What the status bar has to say: the mode, and the query while one is typed, else the
/// number of the cursor's row, counted from one, the number of rows, and the keys to use.
pub open spec fn bar_text(s: StateView) -> Seq<char> {
    match s.mode {
        Mode::Search => " "@ + "SEARCH"@ + "  /"@ + s.search_input,
        Mode::Normal => " "@ + "COPY"@ + "  "@ + decimal((s.cur_row + 1) as nat) + "/"@ + decimal(
            s.grid.len(),
        ) + "  "@ + "j/k move · v select · y yank · / search · q quit"@,
        Mode::Visual => " "@ + "VISUAL"@ + "  "@ + decimal((s.cur_row + 1) as nat) + "/"@
            + decimal(s.grid.len()) + "  "@ + "move to extend · y yank · Esc cancel"@,
        Mode::VisualLine => " "@ + "V-LINE"@ + "  "@ + decimal((s.cur_row + 1) as nat) + "/"@
            + decimal(s.grid.len()) + "  "@ + "move to extend · y yank · Esc cancel"@,
    }
}

/// The status bar shows its text in exactly the width of the pane, bold and white on
/// blue, and resets the style behind it.
pub proof fn the_bar_shows_its_text(s: StateView, cols: int)
    requires
        0 <= cols,
    ensures
        exists|shown: Seq<char>| #[trigger]
            fills_a_field(bar_text(s), shown, cols) && s.status_bar(cols)
                == "\x1b[1m\x1b[48;5;24m\x1b[38;5;231m"@ + shown + "\x1b[0m"@,
{
    let shown = crate::render::fitted(s.status_text(), cols);
    assert(s.status_text() == bar_text(s));
    assert(fills_a_field(bar_text(s), shown, cols));
}

/// The text of a row is made of the characters of its cells.
pub proof fn row_texts_are_the_characters(row: Seq<Cell>)
    ensures
        row_text(row).len() == row.len(),
        forall|i: int| 0 <= i < row.len() ==> #[trigger] row_text(row)[i] == row[i].ch,
{
}

} // verus!

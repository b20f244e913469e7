//! The text of the selection.
use vstd::prelude::*;

use crate::dump::{Cell, Line};
use crate::state::{larger, reads_before, smaller, Mode, State, StateView};
use crate::text::{
    join_lines, lines_hold_no_newline, lines_nonempty, lines_of, lines_undo_join, trim_each,
    trim_end, trim_end_is_longest_clean_prefix, trim_lines, whitespace,
};

verus! {

/// The characters of a row.
pub open spec fn row_text(row: Seq<Cell>) -> Seq<char> {
    row.map_values(|c: Cell| c.ch)
}

impl StateView {
    /// The first column that is copied from a row of the selection, or its end where the
    /// selection starts behind that.
    pub open spec fn copy_from(self, start: (int, int), row: int) -> int {
        if self.mode == Mode::Visual && row == start.0 {
            smaller(start.1, self.line_len(row))
        } else {
            0
        }
    }

    /// The column before which copying from a row of the selection ends.
    pub open spec fn copy_to(self, start: (int, int), end: (int, int), row: int) -> int {
        let hi = if self.mode == Mode::Visual && row == end.0 {
            smaller(end.1 + 1, self.line_len(row))
        } else {
            self.line_len(row)
        };
        larger(hi, self.copy_from(start, row))
    }

    /// What is copied from a row of the selection.
    pub open spec fn copied_part(self, start: (int, int), end: (int, int), row: int) -> Seq<char> {
        row_text(self.grid[row]).subrange(
            self.copy_from(start, row),
            self.copy_to(start, end, row),
        )
    }

    /// What is copied from the rows of the selection before `row`. Each row but the last
    /// one is followed by a newline; a row that the grid does not have adds nothing.
    pub open spec fn copied_before(self, start: (int, int), end: (int, int), row: int) -> Seq<char>
        decreases row - start.0,
    {
        if row <= start.0 {
            seq![]
        } else {
            let before = self.copied_before(start, end, row - 1);
            if row - 1 >= self.grid.len() {
                before
            } else if row - 1 == end.0 {
                before + self.copied_part(start, end, row - 1)
            } else {
                before + self.copied_part(start, end, row - 1).push('\n')
            }
        }
    }

    /// The text of the selection, with the white space at the end of each line taken
    /// away. Where there is no selection it is empty.
    pub open spec fn selected_text(self) -> Seq<char> {
        match self.selection() {
            None => seq![],
            Some((start, end)) => join_lines(
                trim_each(lines_of(self.copied_before(start, end, end.0 + 1))),
            ),
        }
    }
}

/// Rows that the grid does not have add nothing to what is copied.
pub proof fn rows_below_the_grid_add_nothing(
    s: StateView,
    start: (int, int),
    end: (int, int),
    row: int,
)
    requires
        row >= s.grid.len(),
        row >= start.0,
    ensures
        s.copied_before(start, end, row) == s.copied_before(
            start,
            end,
            larger(start.0, s.grid.len() as int),
        ),
    decreases row,
{
    if row > start.0 && row > s.grid.len() {
        rows_below_the_grid_add_nothing(s, start, end, row - 1);
    }
}

/// Appends the characters of the cells from column `lo` to before column `hi`.
fn push_cells(out: &mut Vec<char>, line: &Line, lo: usize, hi: usize)
    requires
        lo <= hi <= line.len(),
    ensures
        final(out)@ == old(out)@ + row_text(line@).subrange(lo as int, hi as int),
{
    let mut i: usize = lo;
    assert(row_text(line@).subrange(lo as int, lo as int) =~= seq![]);
    assert(out@ + seq![] =~= out@);
    while i < hi
        invariant
            lo <= i <= hi <= line.len(),
            out@ == old(out)@ + row_text(line@).subrange(lo as int, i as int),
        decreases hi - i,
    {
        out.push(line[i].ch);
        assert(row_text(line@)[i as int] == line[i as int].ch);
        i = i + 1;
        assert(out@ =~= old(out)@ + row_text(line@).subrange(lo as int, i as int));
    }
}

impl State {
    /// The text of the selection, with the white space at the end of each line taken
    /// away. Where there is no selection it is empty.
    pub fn selected_text(&self) -> (r: String)
        ensures
            r@ == self@.selected_text(),
    {
        let (start, end) = match self.selection() {
            None => {
                return String::new();
            },
            Some(ends) => ends,
        };
        let ghost s = (start.0 as int, start.1 as int);
        let ghost e = (end.0 as int, end.1 as int);
        let mut raw: Vec<char> = Vec::new();
        let mut row: usize = start.0;
        while row < self.grid.len() && row <= end.0
            invariant
                start.0 <= row,
                row <= start.0 || row <= self.grid.len(),
                row <= end.0 + 1 || row == start.0,
                s == (start.0 as int, start.1 as int),
                e == (end.0 as int, end.1 as int),
                self@.selection() == Some((s, e)),
                raw@ == self@.copied_before(s, e, row as int),
            decreases self.grid.len() - row,
        {
            let line = &self.grid[row];
            assert(self@.grid[row as int] == line@);
            let len: usize = line.len();
            let (lo, hi): (usize, usize) = match self.mode {
                Mode::Visual => {
                    let lo: usize = if row != start.0 {
                        0
                    } else if start.1 < len {
                        start.1
                    } else {
                        len
                    };
                    let hi: usize = if row == end.0 && end.1 < len {
                        end.1 + 1
                    } else {
                        len
                    };
                    (
                        lo,
                        if hi < lo {
                            lo
                        } else {
                            hi
                        },
                    )
                },
                _ => (0, len),
            };
            assert(lo == self@.copy_from(s, row as int));
            assert(hi == self@.copy_to(s, e, row as int));
            push_cells(&mut raw, line, lo, hi);
            if row != end.0 {
                raw.push('\n');
            }
            assert(raw@ =~= self@.copied_before(s, e, row + 1));
            row = row + 1;
        }
        proof {
            if row <= end.0 {
                rows_below_the_grid_add_nothing(self@, s, e, e.0 + 1);
                rows_below_the_grid_add_nothing(self@, s, e, row as int);
            }
        }
        trim_lines(&raw)
    }
}

/// The columns that are copied from a row are those whose cells are highlighted.
pub proof fn copied_cells_are_the_highlighted_ones(s: StateView, row: int, col: int)
    requires
        s.mode == Mode::Visual || s.mode == Mode::VisualLine,
        s.selection() is Some,
        0 <= row < s.grid.len(),
        0 <= col < s.grid[row].len(),
    ensures
        ({
            let (start, end) = s.selection()->0;
            s.is_selected(row, col) <==> start.0 <= row <= end.0 && s.copy_from(start, row) <= col
                < s.copy_to(start, end, row)
        }),
{
}

/// The lines of rows `start.0` to before `row`, as they are copied.
pub open spec fn copied_lines(
    s: StateView,
    start: (int, int),
    end: (int, int),
    row: int,
) -> Seq<Seq<char>>
    decreases row - start.0,
{
    if row <= start.0 {
        seq![]
    } else {
        copied_lines(s, start, end, row - 1).push(s.copied_part(start, end, row - 1))
    }
}

/// What is copied from the rows before `row` are their lines, with a newline behind each
/// but that of the last row of the selection.
pub proof fn copied_before_is_joined(s: StateView, start: (int, int), end: (int, int), row: int)
    requires
        start.0 < row <= end.0 + 1,
        row <= s.grid.len(),
    ensures
        copied_lines(s, start, end, row).len() == row - start.0,
        s.copied_before(start, end, row) == if row == end.0 + 1 {
            join_lines(copied_lines(s, start, end, row))
        } else {
            join_lines(copied_lines(s, start, end, row)).push('\n')
        },
    decreases row - start.0,
{
    let lines = copied_lines(s, start, end, row);
    let part = s.copied_part(start, end, row - 1);
    if row - 1 > start.0 {
        copied_before_is_joined(s, start, end, row - 1);
        let front = copied_lines(s, start, end, row - 1);
        assert(lines.drop_last() =~= front);
        assert(join_lines(lines) =~= join_lines(front).push('\n') + part);
        assert(s.copied_before(start, end, row) =~= if row == end.0 + 1 {
            join_lines(lines)
        } else {
            join_lines(lines).push('\n')
        });
    } else {
        assert(copied_lines(s, start, end, row - 1) =~= seq![]);
        assert(s.copied_before(start, end, row - 1) =~= seq![]);
        assert(lines =~= seq![part]);
        assert(s.copied_before(start, end, row) =~= if row == end.0 + 1 {
            part
        } else {
            part.push('\n')
        });
    }
}

/// Whether no cell of the rows `from` to `to` holds a newline.
pub open spec fn cells_hold_no_newline(s: StateView, from: int, to: int) -> bool {
    forall|row: int, col: int|
        from <= row <= to && 0 <= col < s.grid[row].len() ==> (#[trigger] s.grid[row][col]).ch
            != '\n'
}

/// The text of a selection inside the grid has one line for each of its rows, and each
/// is what is copied from that row without the white space at its end.
pub proof fn selected_text_by_rows(s: StateView)
    requires
        s.selection() is Some,
        0 <= (s.selection()->0).0.0,
        0 <= (s.selection()->0).0.1,
        (s.selection()->0).1.0 < s.grid.len(),
        cells_hold_no_newline(s, (s.selection()->0).0.0, (s.selection()->0).1.0),
    ensures
        ({
            let (start, end) = s.selection()->0;
            &&& s.selected_text() == join_lines(
                trim_each(copied_lines(s, start, end, end.0 + 1)),
            )
            &&& lines_of(s.selected_text()).len() == end.0 - start.0 + 1
            &&& forall|row: int|
                start.0 <= row <= end.0 ==> #[trigger] lines_of(s.selected_text())[row - start.0]
                    == trim_end(s.copied_part(start, end, row))
        }),
{
    let (start, end) = s.selection()->0;
    let lines = copied_lines(s, start, end, end.0 + 1);
    copied_before_is_joined(s, start, end, end.0 + 1);
    copied_lines_are_parts(s, start, end, end.0 + 1);
    assert forall|i: int| 0 <= i < lines.len() implies !(#[trigger] lines[i]).contains('\n') by {
        let row = start.0 + i;
        assert(lines[i] == s.copied_part(start, end, row));
        let from = s.copy_from(start, row);
        assert forall|k: int| 0 <= k < lines[i].len() implies lines[i][k] != '\n' by {
            assert(lines[i][k] == s.grid[row][from + k].ch);
        }
    }
    lines_undo_join(lines);
    let trimmed = trim_each(lines);
    assert forall|i: int| 0 <= i < trimmed.len() implies !(#[trigger] trimmed[i]).contains(
        '\n',
    ) by {
        assert(!lines[i].contains('\n'));
        trim_end_is_longest_clean_prefix(lines[i]);
        assert forall|k: int| 0 <= k < trimmed[i].len() implies trimmed[i][k] != '\n' by {
            assert(lines[i].contains(lines[i][k]));
        }
    }
    lines_undo_join(trimmed);
}

/// The lines that are copied are what is copied from each row.
pub proof fn copied_lines_are_parts(s: StateView, start: (int, int), end: (int, int), row: int)
    requires
        start.0 <= row,
    ensures
        copied_lines(s, start, end, row).len() == row - start.0,
        forall|i: int|
            0 <= i < row - start.0 ==> #[trigger] copied_lines(s, start, end, row)[i]
                == s.copied_part(start, end, start.0 + i),
    decreases row - start.0,
{
    if row > start.0 {
        copied_lines_are_parts(s, start, end, row - 1);
    }
}

/// No line of the text of a selection ends in white space.
pub proof fn selected_lines_are_trimmed(s: StateView)
    ensures
        forall|i: int|
            0 <= i < lines_of(s.selected_text()).len() && (#[trigger] lines_of(
                s.selected_text(),
            )[i]).len() > 0 ==> !whitespace(lines_of(s.selected_text())[i].last()),
{
    match s.selection() {
        None => {
            assert(lines_of(s.selected_text()) =~= seq![seq![]]);
        },
        Some((start, end)) => {
            let raw = s.copied_before(start, end, end.0 + 1);
            let lines = lines_of(raw);
            let trimmed = trim_each(lines);
            lines_nonempty(raw);
            lines_hold_no_newline(raw);
            assert forall|i: int| 0 <= i < trimmed.len() implies !(#[trigger] trimmed[i]).contains(
                '\n',
            ) by {
                assert(!lines[i].contains('\n'));
                trim_end_is_longest_clean_prefix(lines[i]);
                assert forall|k: int| 0 <= k < trimmed[i].len() implies trimmed[i][k] != '\n' by {
                    assert(lines[i].contains(lines[i][k]));
                }
            }
            lines_undo_join(trimmed);
            assert forall|i: int| 0 <= i < trimmed.len() && (#[trigger] trimmed[i]).len()
                > 0 implies !whitespace(trimmed[i].last()) by {
                trim_end_is_longest_clean_prefix(lines[i]);
            }
        },
    }
}

/// The ends of the selection are in reading order, and it does not matter which of
/// them is the anchor.
pub proof fn selection_is_symmetric(s: StateView, a: (int, int), b: (int, int))
    requires
        s.anchor == Some(a),
        (s.cur_row, s.cur_col) == b,
    ensures
        reads_before((s.selection()->0).0, (s.selection()->0).1),
        (StateView { anchor: Some(b), cur_row: a.0, cur_col: a.1, ..s }).selection()
            == s.selection(),
{
}

} // verus!

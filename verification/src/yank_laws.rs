//! Which cells are selected, and what of them is copied.
use vstd::prelude::*;

use crate::command::CommandView;
use crate::keys::BareKey;
use crate::motion_laws::{char_key, other_key};
use crate::selection::{
    copied_before_is_joined, copied_cells_are_the_highlighted_ones, copied_lines,
    copied_lines_are_parts, row_text, rows_below_the_grid_add_nothing, selected_text_by_rows,
};
use crate::state::{Mode, StateView};
use crate::text::{
    join_lines, lines_of, lines_undo_join, trim_each, trim_end, trim_end_is_longest_clean_prefix,
};

verus! {

/// Whether one position comes before another one in reading order: in a row above, or
/// further left in the same row.
pub open spec fn reads_earlier(a: (int, int), b: (int, int)) -> bool {
    a.0 < b.0 || (a.0 == b.0 && a.1 < b.1)
}

/// The selection has the anchor and the cursor for its ends, the one that reads earlier
/// first; without an anchor there is none.
pub proof fn the_ends_are_anchor_and_cursor(s: StateView)
    ensures
        s.anchor is None ==> s.selection() is None,
        s.anchor is Some ==> ({
            let anchor = s.anchor->0;
            let cursor = (s.cur_row, s.cur_col);
            s.selection() == if reads_earlier(cursor, anchor) {
                Some((cursor, anchor))
            } else {
                Some((anchor, cursor))
            }
        }),
{
}

/// In the character-wise mode a cell is selected unless it comes before both ends of the
/// selection or after both of them; so both ends are selected, whichever of them is the
/// anchor.
pub proof fn characters_between_the_ends(s: StateView, anchor: (int, int), row: int, col: int)
    requires
        s.mode == Mode::Visual,
        s.anchor == Some(anchor),
    ensures
        ({
            let cursor = (s.cur_row, s.cur_col);
            let cell = (row, col);
            &&& s.is_selected(anchor.0, anchor.1)
            &&& s.is_selected(s.cur_row, s.cur_col)
            &&& s.is_selected(row, col) <==> !(reads_earlier(cell, anchor) && reads_earlier(
                cell,
                cursor,
            )) && !(reads_earlier(anchor, cell) && reads_earlier(cursor, cell))
        }),
{
}

/// In the line-wise mode every cell is selected in the rows from that of one end to that
/// of the other, and none in other rows.
pub proof fn rows_between_the_ends(s: StateView, anchor: (int, int), row: int, col: int)
    requires
        s.mode == Mode::VisualLine,
        s.anchor == Some(anchor),
    ensures
        s.is_selected(row, col) <==> (anchor.0 <= row <= s.cur_row || s.cur_row <= row
            <= anchor.0),
{
}

/// Without an anchor, and in the other modes, no cell is selected.
pub proof fn nothing_is_selected(s: StateView, row: int, col: int)
    requires
        s.anchor is None || s.mode == Mode::Normal || s.mode == Mode::Search,
    ensures
        !s.is_selected(row, col),
        s.anchor is None ==> s.selected_text().len() == 0,
{
}

/// It does not matter which end of a selection is the anchor: with the two exchanged the
/// same cells are selected and the same text is copied.
pub proof fn ends_can_be_exchanged(s: StateView, anchor: (int, int))
    requires
        s.anchor == Some(anchor),
    ensures
        ({
            let t = StateView {
                anchor: Some((s.cur_row, s.cur_col)),
                cur_row: anchor.0,
                cur_col: anchor.1,
                ..s
            };
            &&& forall|row: int, col: int| #[trigger]
                t.is_selected(row, col) == s.is_selected(row, col)
            &&& t.selected_text() == s.selected_text()
        }),
{
    let t = StateView {
        anchor: Some((s.cur_row, s.cur_col)),
        cur_row: anchor.0,
        cur_col: anchor.1,
        ..s
    };
    let (start, end) = s.selection()->0;
    assert(t.selection() == s.selection());
    copied_alike(s, t, start, end, end.0 + 1);
}

proof fn copied_alike(s: StateView, t: StateView, start: (int, int), end: (int, int), row: int)
    requires
        t.grid == s.grid,
        t.mode == s.mode,
        t.selection() == s.selection(),
        s.selection() == Some((start, end)),
    ensures
        t.copied_before(start, end, row) == s.copied_before(start, end, row),
    decreases row - start.0,
{
    if row > start.0 {
        copied_alike(s, t, start, end, row - 1);
        assert(t.copied_part(start, end, row - 1) == s.copied_part(start, end, row - 1));
    }
}

/// The upper row of the two ends of the selection.
pub open spec fn top_row(s: StateView) -> int {
    if (s.anchor->0).0 < s.cur_row {
        (s.anchor->0).0
    } else {
        s.cur_row
    }
}

/// The lower row of the two ends of the selection.
pub open spec fn bottom_row(s: StateView) -> int {
    if (s.anchor->0).0 < s.cur_row {
        s.cur_row
    } else {
        (s.anchor->0).0
    }
}

/// Whether the selection has two ends in the grid, and its rows hold no newline.
pub open spec fn selects_rows(s: StateView) -> bool {
    &&& s.anchor is Some
    &&& 0 <= (s.anchor->0).1
    &&& 0 <= s.cur_col
    &&& 0 <= top_row(s)
    &&& bottom_row(s) < s.grid.len()
    &&& forall|row: int, col: int|
        top_row(s) <= row <= bottom_row(s) && 0 <= col < s.grid[row].len() ==> (
        #[trigger] s.grid[row][col]).ch != '\n'
}

/// Whether the columns from `lo` to before `hi` are those of the row's selected cells.
pub open spec fn are_the_selected_columns(s: StateView, row: int, lo: int, hi: int) -> bool {
    &&& 0 <= lo <= hi <= s.grid[row].len()
    &&& forall|col: int|
        0 <= col < s.grid[row].len() ==> (#[trigger] s.is_selected(row, col) <==> lo <= col < hi)
}

/// What is copied of a selection is what is shown as selected: one line for each row from
/// the upper end to the lower one, with the characters of exactly the selected cells of
/// that row but for the white space behind them.
pub proof fn selected_cells_are_copied(s: StateView, row: int)
    requires
        s.mode == Mode::Visual || s.mode == Mode::VisualLine,
        selects_rows(s),
        top_row(s) <= row <= bottom_row(s),
    ensures
        lines_of(s.selected_text()).len() == bottom_row(s) - top_row(s) + 1,
        exists|lo: int, hi: int| #[trigger]
            are_the_selected_columns(s, row, lo, hi) && lines_of(s.selected_text())[row - top_row(
                s,
            )] == trim_end(row_text(s.grid[row]).subrange(lo, hi)),
{
    let (start, end) = s.selection()->0;
    assert(start.0 == top_row(s) && end.0 == bottom_row(s));
    selected_text_by_rows(s);
    let lo = s.copy_from(start, row);
    let hi = s.copy_to(start, end, row);
    assert forall|col: int| 0 <= col < s.grid[row].len() implies (#[trigger] s.is_selected(row, col)
        <==> lo <= col < hi) by {
        copied_cells_are_the_highlighted_ones(s, row, col);
    }
    assert(are_the_selected_columns(s, row, lo, hi));
    assert(lines_of(s.selected_text())[row - start.0] == trim_end(s.copied_part(start, end, row)));
}

/// In the line-wise mode, and where the mode has been left with the anchor kept, whole
/// rows are copied.
pub proof fn whole_rows_are_copied(s: StateView, row: int)
    requires
        s.mode != Mode::Visual,
        selects_rows(s),
        top_row(s) <= row <= bottom_row(s),
    ensures
        lines_of(s.selected_text()).len() == bottom_row(s) - top_row(s) + 1,
        lines_of(s.selected_text())[row - top_row(s)] == trim_end(row_text(s.grid[row])),
{
    let (start, end) = s.selection()->0;
    assert(start.0 == top_row(s) && end.0 == bottom_row(s));
    selected_text_by_rows(s);
    assert(lines_of(s.selected_text())[row - start.0] == trim_end(s.copied_part(start, end, row)));
    assert(s.copied_part(start, end, row) =~= row_text(s.grid[row]));
}

/// Where the grid has become shorter than the selection, the rows that are left are
/// copied as far as they are selected, and an empty line stands for the others.
pub proof fn lost_rows_are_left_out(s: StateView, row: int)
    requires
        s.mode == Mode::Visual || s.mode == Mode::VisualLine,
        s.anchor is Some,
        0 <= (s.anchor->0).1,
        0 <= s.cur_col,
        0 <= top_row(s) <= row < s.grid.len() <= bottom_row(s),
        forall|r: int, col: int|
            top_row(s) <= r < s.grid.len() && 0 <= col < s.grid[r].len() ==> (
            #[trigger] s.grid[r][col]).ch != '\n',
    ensures
        lines_of(s.selected_text()).len() == s.grid.len() - top_row(s) + 1,
        lines_of(s.selected_text()).last().len() == 0,
        exists|lo: int, hi: int| #[trigger]
            are_the_selected_columns(s, row, lo, hi) && lines_of(s.selected_text())[row - top_row(
                s,
            )] == trim_end(row_text(s.grid[row]).subrange(lo, hi)),
{
    let (start, end) = s.selection()->0;
    let n = s.grid.len() as int;
    assert(start.0 == top_row(s) && end.0 == bottom_row(s));
    rows_below_the_grid_add_nothing(s, start, end, end.0 + 1);
    copied_before_is_joined(s, start, end, n);
    copied_lines_are_parts(s, start, end, n);
    let parts = copied_lines(s, start, end, n);
    let none: Seq<char> = seq![];
    let lines = parts.push(none);
    assert(lines.drop_last() =~= parts);
    assert(join_lines(lines) =~= join_lines(parts).push('\n'));
    assert forall|i: int| 0 <= i < lines.len() implies !(#[trigger] lines[i]).contains('\n') by {
        if i < parts.len() {
            let r = start.0 + i;
            let from = s.copy_from(start, r);
            assert(lines[i] == s.copied_part(start, end, r));
            assert forall|k: int| 0 <= k < lines[i].len() implies lines[i][k] != '\n' by {
                assert(lines[i][k] == s.grid[r][from + k].ch);
            }
        }
    }
    lines_undo_join(lines);
    let trimmed = trim_each(lines);
    assert forall|i: int| 0 <= i < trimmed.len() implies !(#[trigger] trimmed[i]).contains(
        '\n',
    ) by {
        assert(!lines[i].contains('\n'));
        trim_end_is_longest_clean_prefix(lines[i]);
        assert forall|k: int| 0 <= k < trimmed[i].len() implies trimmed[i][k] != '\n' by {
            assert(lines[i].contains(lines[i][k]));
        }
    }
    lines_undo_join(trimmed);
    assert(trimmed[row - start.0] == trim_end(lines[row - start.0]));
    assert(parts[row - start.0] == s.copied_part(start, end, start.0 + (row - start.0)));
    assert(trimmed.last() == trim_end(none));
    let lo = s.copy_from(start, row);
    let hi = s.copy_to(start, end, row);
    assert forall|col: int| 0 <= col < s.grid[row].len() implies (#[trigger] s.is_selected(row, col)
        <==> lo <= col < hi) by {
        copied_cells_are_the_highlighted_ones(s, row, col);
    }
    assert(are_the_selected_columns(s, row, lo, hi));
}

/// Where no row of the selection is left in the grid, nothing is copied.
pub proof fn a_lost_selection_copies_nothing(s: StateView)
    requires
        s.anchor is Some,
        s.grid.len() <= top_row(s),
    ensures
        s.selected_text().len() == 0,
{
    let (start, end) = s.selection()->0;
    assert(start.0 == top_row(s));
    rows_below_the_grid_add_nothing(s, start, end, end.0 + 1);
    let raw = s.copied_before(start, end, end.0 + 1);
    assert(raw.len() == 0);
    let lines = lines_of(raw);
    assert(lines.len() == 1 && lines[0].len() == 0);
    assert(trim_each(lines)[0] == trim_end(lines[0]));
}

/// `y` and Enter copy the text of a selection, unless it is empty, and leave copy mode;
/// the state stays.
pub proof fn yanking_keys(s: StateView, ctrl: bool)
    requires
        s.mode != Mode::Search,
        s.anchor is Some,
    ensures
        ({
            let y = s.handle_key(char_key('y', ctrl));
            let leave = seq![CommandView::ClearKeyIntercepts, CommandView::CloseSelf];
            &&& y.handled
            &&& y.state == s
            &&& s.selected_text().len() == 0 ==> y.commands == leave
            &&& s.selected_text().len() > 0 ==> y.commands == seq![
                CommandView::CopyToClipboard(s.selected_text()),
            ] + leave
            &&& s.handle_key(other_key(BareKey::Enter, ctrl)) == y
        }),
{
}

} // verus!

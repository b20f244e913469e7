//! What entering copy mode shows: the text of the pane, with the cursor in its place.
use vstd::prelude::*;

use crate::dump::{counts, plain_grid, plain_row};
use crate::plugin::PaneContentsView;
use crate::selection::{
    copied_lines, copied_lines_are_parts, row_text, selected_text_by_rows,
};
use crate::state::{Mode, StateView};
use crate::text::{join_lines, lines_undo_join, trim_each};

verus! {

/// Whether the character is drawn when it is printed: it is no control character.
pub open spec fn is_drawn(c: char) -> bool {
    c as u32 >= 32
}

/// What is drawn of a line: all but its control characters.
pub open spec fn drawn_line(line: Seq<char>) -> Seq<char> {
    line.filter(|c: char| is_drawn(c))
}

/// What is drawn of each line.
pub open spec fn drawn_lines(lines: Seq<Seq<char>>) -> Seq<Seq<char>> {
    lines.map_values(|l: Seq<char>| drawn_line(l))
}

/// Whether the line is a plain one: it holds neither a newline nor an escape.
pub open spec fn is_plain_line(line: Seq<char>) -> bool {
    !line.contains('\n') && !line.contains('\x1b')
}

proof fn filter_concat(a: Seq<char>, b: Seq<char>, keep: spec_fn(char) -> bool)
    ensures
        (a + b).filter(keep) == a.filter(keep) + b.filter(keep),
    decreases b.len(),
{
    reveal(Seq::filter);
    if b.len() == 0 {
        assert(a + b =~= a);
        assert(a.filter(keep) + b.filter(keep) =~= a.filter(keep));
    } else {
        assert((a + b).drop_last() =~= a + b.drop_last());
        filter_concat(a, b.drop_last(), keep);
        assert((a + b).filter(keep) =~= a.filter(keep) + b.filter(keep));
    }
}

proof fn drawn_line_counts(line: Seq<char>)
    requires
        !line.contains('\n'),
    ensures
        line.filter(|c: char| counts(c)) == drawn_line(line),
        !drawn_line(line).contains('\n'),
    decreases line.len(),
{
    reveal(Seq::filter);
    if line.len() > 0 {
        let front = line.drop_last();
        assert(line.contains(line[line.len() - 1]));
        assert forall|i: int| 0 <= i < front.len() implies front[i] != '\n' by {
            assert(line.contains(line[i]));
        }
        drawn_line_counts(front);
        let d = drawn_line(line);
        assert forall|i: int| 0 <= i < d.len() implies d[i] != '\n' by {
            if i < drawn_line(front).len() {
                assert(drawn_line(front).contains(drawn_line(front)[i]));
            }
        }
    }
}

proof fn joined_lines_drawn(lines: Seq<Seq<char>>)
    requires
        forall|i: int| 0 <= i < lines.len() ==> is_plain_line(#[trigger] lines[i]),
    ensures
        join_lines(lines).filter(|c: char| counts(c)) == join_lines(drawn_lines(lines)),
        !join_lines(lines).contains('\x1b'),
        forall|i: int|
            0 <= i < lines.len() ==> !(#[trigger] drawn_lines(lines)[i]).contains('\n'),
    decreases lines.len(),
{
    let keep = |c: char| counts(c);
    let all = join_lines(lines);
    assert forall|i: int| 0 <= i < lines.len() implies !(
    #[trigger] drawn_lines(lines)[i]).contains('\n') by {
        assert(is_plain_line(lines[i]));
        drawn_line_counts(lines[i]);
    }
    if lines.len() == 0 {
        reveal(Seq::filter);
        assert(all.filter(keep) =~= join_lines(drawn_lines(lines)));
    } else if lines.len() == 1 {
        assert(is_plain_line(lines[0]));
        drawn_line_counts(lines[0]);
    } else {
        let front = lines.drop_last();
        let last = lines.last();
        assert forall|i: int| 0 <= i < front.len() implies is_plain_line(#[trigger] front[i]) by {
            assert(front[i] == lines[i]);
        }
        assert(is_plain_line(lines[lines.len() - 1]));
        joined_lines_drawn(front);
        drawn_line_counts(last);
        let head = join_lines(front);
        assert(all == head.push('\n') + last);
        filter_concat(head.push('\n'), last, keep);
        assert(head.push('\n').filter(keep) == head.filter(keep).push('\n')) by {
            reveal(Seq::filter);
            assert(head.push('\n').drop_last() =~= head);
        }
        assert(drawn_lines(lines).drop_last() =~= drawn_lines(front));
        assert forall|i: int| 0 <= i < all.len() implies all[i] != '\x1b' by {
            if i < head.len() {
                assert(head.contains(head[i]));
            } else if i > head.len() {
                assert(last.contains(last[i - head.len() - 1]));
            }
        }
    }
}

proof fn join_concat(a: Seq<Seq<char>>, b: Seq<Seq<char>>)
    requires
        a.len() > 0,
        b.len() > 0,
    ensures
        join_lines(a + b) == join_lines(a).push('\n') + join_lines(b),
    decreases b.len(),
{
    assert((a + b).drop_last() =~= a + b.drop_last());
    if b.len() == 1 {
        assert(a + b.drop_last() =~= a);
        assert(join_lines(a + b) =~= join_lines(a).push('\n') + join_lines(b));
    } else {
        join_concat(a, b.drop_last());
        assert(join_lines(a + b) =~= join_lines(a).push('\n') + join_lines(b));
    }
}

/// The text of a pane is made of its lines, those above the viewport first, with a
/// newline between each two.
pub proof fn the_lines_of_a_pane_are_joined(contents: PaneContentsView)
    ensures
        contents.viewport.len() > 0 ==> contents.text() == join_lines(
            contents.above + contents.viewport,
        ),
        contents.viewport.len() == 0 && contents.above.len() > 0 ==> contents.text() == join_lines(
            contents.above,
        ).push('\n'),
        contents.viewport.len() == 0 && contents.above.len() == 0 ==> contents.text().len() == 0,
{
    if contents.viewport.len() == 0 {
        assert(contents.text() =~= if contents.above.len() == 0 {
            seq![]
        } else {
            join_lines(contents.above).push('\n')
        });
    } else if contents.above.len() == 0 {
        assert(contents.above + contents.viewport =~= contents.viewport);
        assert(contents.text() =~= join_lines(contents.viewport));
    } else {
        join_concat(contents.above, contents.viewport);
    }
}

/// Copy mode shows the pane line by line, unstyled: every plain line of the scrollback
/// becomes the row with its number, the viewport begins at the row that is noted for it,
/// and the cursor is on the character that the pane's own cursor was on. (A last line
/// that is empty is no row.)
pub proof fn entry_shows_the_pane(s: StateView, contents: PaneContentsView)
    requires
        contents.viewport.len() > 0,
        contents.above.len() + contents.viewport.len() <= usize::MAX,
        forall|i: int| 0 <= i < contents.above.len() ==> is_plain_line(#[trigger] contents.above[i]),
        forall|i: int|
            0 <= i < contents.viewport.len() ==> is_plain_line(#[trigger] contents.viewport[i]),
    ensures
        ({
            let t = s.scrollback_shown(contents, plain_grid(contents.text()));
            &&& !contents.text().contains('\x1b')
            &&& t.viewport_start == contents.above.len()
            &&& forall|i: int|
                0 <= i < contents.above.len() ==> #[trigger] t.grid[i] == plain_row(
                    drawn_line(contents.above[i]),
                )
            &&& forall|i: int|
                #![trigger contents.viewport[i]]
                0 <= i < contents.viewport.len() && (i + 1 < contents.viewport.len() || drawn_line(
                    contents.viewport[i],
                ).len() > 0) ==> t.grid[t.viewport_start + i] == plain_row(
                    drawn_line(contents.viewport[i]),
                )
            &&& match s.target_cursor {
                Some((x, y)) => y < contents.viewport.len() && x < drawn_line(
                    contents.viewport[y as int],
                ).len() ==> t.cur_row == t.viewport_start + y && t.cur_col == x
                    && t.grid[t.cur_row][t.cur_col].ch == drawn_line(
                    contents.viewport[y as int],
                )[x as int],
                None => true,
            }
        }),
{
    let text = contents.text();
    let whole = contents.above + contents.viewport;
    let t = s.scrollback_shown(contents, plain_grid(text));
    assert(text == join_lines(whole)) by {
        if contents.above.len() == 0 {
            assert(whole =~= contents.viewport);
            assert(text =~= join_lines(contents.viewport));
        } else {
            join_concat(contents.above, contents.viewport);
        }
    }
    assert forall|i: int| 0 <= i < whole.len() implies is_plain_line(#[trigger] whole[i]) by {
        if i < contents.above.len() {
            assert(whole[i] == contents.above[i]);
        } else {
            assert(whole[i] == contents.viewport[i - contents.above.len()]);
        }
    }
    joined_lines_drawn(whole);
    let drawn = drawn_lines(whole);
    lines_undo_join(drawn);
    let rows = drawn.map_values(|l: Seq<char>| plain_row(l));
    let parsed = plain_grid(text);
    assert(parsed == if drawn.last().len() == 0 {
        rows.drop_last()
    } else {
        rows
    });
    assert forall|i: int|
        0 <= i < whole.len() && (i + 1 < whole.len() || drawn_line(whole[i]).len()
            > 0) implies i < parsed.len() && #[trigger] t.grid[i] == plain_row(
        drawn_line(whole[i]),
    ) by {
        assert(rows[i] == plain_row(drawn[i]));
    }
    assert forall|i: int| 0 <= i < contents.above.len() implies #[trigger] t.grid[i] == plain_row(
        drawn_line(contents.above[i]),
    ) by {
        assert(whole[i] == contents.above[i]);
    }
    assert forall|i: int|
        #![trigger contents.viewport[i]]
        0 <= i < contents.viewport.len() && (i + 1 < contents.viewport.len() || drawn_line(
            contents.viewport[i],
        ).len() > 0) implies t.grid[t.viewport_start + i] == plain_row(
        drawn_line(contents.viewport[i]),
    ) by {
        assert(whole[contents.above.len() + i] == contents.viewport[i]);
        assert(t.grid[contents.above.len() + i] == plain_row(drawn_line(contents.viewport[i])));
    }
    match s.target_cursor {
        Some((x, y)) => {
            if y < contents.viewport.len() && x < drawn_line(contents.viewport[y as int]).len() {
                let row = contents.above.len() + y;
                assert(whole[row] == contents.viewport[y as int]);
                assert(t.grid[row] == plain_row(drawn_line(contents.viewport[y as int])));
                assert(t.grid[row].len() == drawn_line(contents.viewport[y as int]).len());
                assert(row < parsed.len());
                assert(t.grid == parsed);
                assert(t.cur_row == row);
            }
        },
        None => {},
    }
}

/// Selecting whole rows that show plain lines copies these lines, each without the white
/// space at its end.
pub proof fn whole_rows_copy_their_lines(s: StateView, lines: Seq<Seq<char>>)
    requires
        s.mode == Mode::VisualLine,
        s.selection() is Some,
        ({
            let (start, end) = s.selection()->0;
            &&& 0 <= start.0 && 0 <= start.1 && end.0 < s.grid.len()
            &&& lines.len() == end.0 - start.0 + 1
            &&& forall|i: int|
                0 <= i < lines.len() ==> !(#[trigger] lines[i]).contains('\n') && s.grid[start.0 + i]
                    == plain_row(lines[i])
        }),
    ensures
        s.selected_text() == join_lines(trim_each(lines)),
{
    let (start, end) = s.selection()->0;
    assert forall|row: int, col: int|
        start.0 <= row <= end.0 && 0 <= col < s.grid[row].len() implies (
    #[trigger] s.grid[row][col]).ch != '\n' by {
        let line = lines[row - start.0];
        assert(s.grid[start.0 + (row - start.0)] == plain_row(line));
        assert(s.grid[row][col].ch == line[col]);
        assert(line.contains(line[col]));
    }
    selected_text_by_rows(s);
    let copied = copied_lines(s, start, end, end.0 + 1);
    copied_lines_are_parts(s, start, end, end.0 + 1);
    assert(copied =~= lines) by {
        assert forall|i: int| 0 <= i < lines.len() implies copied[i] == lines[i] by {
            let row = start.0 + i;
            assert(!lines[i].contains('\n') && s.grid[start.0 + i] == plain_row(lines[i]));
            assert(row_text(s.grid[row]) =~= lines[i]);
            assert(s.copied_part(start, end, row) =~= lines[i]);
        }
    }
}

} // verus!

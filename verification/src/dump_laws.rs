//! How a stream becomes a grid, piece by piece.
use vstd::prelude::*;

use crate::dump::{build, grid_view, new_builder, text_pieces, Cell, GridBuilderView, Line};
use crate::style::{apply_codes, Color, Style};
use crate::vt::{flat, piece_actions, read_params, ActionView, Piece};

verus! {

/// A new grid has no line, and nothing in the current one; the style is that of default
/// colors without any attribute.
pub proof fn a_new_grid_is_empty()
    ensures
        new_builder().lines.len() == 0,
        new_builder().cur.len() == 0,
        new_builder().style == (Style {
            fg: Color::Default,
            bg: Color::Default,
            bold: false,
            italic: false,
            underline: false,
            reverse: false,
        }),
        new_builder().finish().len() == 0,
{
}

/// Each action counts after those before it: a printed character goes to the end of the
/// current line in the style in force, a newline ends the line, an SGR sequence changes
/// the style with all its parameters in order. No other control byte and no other
/// sequence does anything.
pub proof fn actions_count_in_order(
    b: GridBuilderView,
    actions: Seq<ActionView>,
    c: char,
    byte: u8,
    groups: Seq<Seq<u16>>,
)
    ensures
        b.perform_all(Seq::empty()) == b,
        ({
            let t = b.perform_all(actions);
            &&& b.perform_all(actions.push(ActionView::Print(c))) == (GridBuilderView {
                cur: t.cur.push(Cell { ch: c, style: t.style }),
                ..t
            })
            &&& b.perform_all(actions.push(ActionView::Execute(byte))) == if byte == 10 {
                GridBuilderView { lines: t.lines.push(t.cur), cur: Seq::empty(), style: t.style }
            } else {
                t
            }
            &&& b.perform_all(actions.push(ActionView::Csi(groups, c))) == if c == 'm' {
                GridBuilderView { style: apply_codes(t.style, flat(groups)), ..t }
            } else {
                t
            }
        }),
{
    assert(actions.push(ActionView::Print(c)).drop_last() =~= actions);
    assert(actions.push(ActionView::Execute(byte)).drop_last() =~= actions);
    assert(actions.push(ActionView::Csi(groups, c)).drop_last() =~= actions);
}

/// The parameters of a sequence are read from the left, each with its subparameters
/// behind it.
pub proof fn parameters_are_read_in_order(groups: Seq<Seq<u16>>, group: Seq<u16>)
    ensures
        flat(Seq::empty()).len() == 0,
        flat(groups.push(group)) == flat(groups) + group,
{
    assert(groups.push(group).drop_last() =~= groups);
}

/// The finished grid has the lines that were ended, and the current one where it holds
/// anything.
pub proof fn the_last_line_counts_unless_empty(b: GridBuilderView)
    ensures
        b.cur.len() == 0 ==> b.finish() == b.lines,
        b.cur.len() > 0 ==> b.finish() == b.lines.push(b.cur),
{
}

/// A character in a style.
pub open spec fn styled_cell(c: char, style: Style) -> Cell {
    Cell { ch: c, style }
}

/// A text in a style, each character in a cell of its own.
pub open spec fn styled_row(text: Seq<char>, style: Style) -> Seq<Cell> {
    text.map_values(|c: char| styled_cell(c, style))
}

proof fn styled_text_is_built(groups: Seq<Seq<u16>>, text: Seq<char>)
    requires
        forall|i: int| 0 <= i < text.len() ==> #[trigger] text[i] as u32 >= 32,
    ensures
        ({
            let style = apply_codes(new_builder().style, flat(read_params(groups)));
            let pieces = seq![Piece::Csi(groups, 'm')] + text_pieces(text);
            new_builder().perform_all(piece_actions(pieces)) == (GridBuilderView {
                lines: Seq::empty(),
                cur: styled_row(text, style),
                style,
            })
        }),
    decreases text.len(),
{
    let style = apply_codes(new_builder().style, flat(read_params(groups)));
    let first = seq![Piece::Csi(groups, 'm')];
    let pieces = first + text_pieces(text);
    let actions = piece_actions(pieces);
    let cells = styled_row(text, style);
    assert(actions.len() == text.len() + 1);
    if text.len() == 0 {
        assert(actions.drop_last() =~= Seq::empty());
        assert(actions.last() == ActionView::Csi(read_params(groups), 'm'));
        assert(new_builder().perform_all(actions.drop_last()) == new_builder());
        assert(cells =~= Seq::empty());
    } else {
        let front = text.drop_last();
        let front_cells = styled_row(front, style);
        assert forall|i: int| 0 <= i < front.len() implies #[trigger] front[i] as u32 >= 32 by {
            assert(front[i] == text[i]);
        }
        styled_text_is_built(groups, front);
        assert(text[text.len() - 1] as u32 >= 32);
        assert(actions.drop_last() =~= piece_actions(first + text_pieces(front)));
        assert(pieces.last() == Piece::Char(text.last()));
        assert(actions.last() == ActionView::Print(text.last()));
        assert(cells =~= front_cells.push(Cell { ch: text.last(), style }));
    }
}

/// Text behind an SGR sequence is shown in the style that the sequence asks for, each
/// character in a cell of its own.
pub proof fn text_is_shown_in_its_style(groups: Seq<Seq<u16>>, text: Seq<char>)
    requires
        text.len() > 0,
        forall|i: int| 0 <= i < text.len() ==> #[trigger] text[i] as u32 >= 32,
    ensures
        ({
            let plain = Style {
                fg: Color::Default,
                bg: Color::Default,
                bold: false,
                italic: false,
                underline: false,
                reverse: false,
            };
            let style = apply_codes(plain, flat(read_params(groups)));
            build(piece_actions(seq![Piece::Csi(groups, 'm')] + text_pieces(text))) == seq![
                styled_row(text, style),
            ]
        }),
{
    styled_text_is_built(groups, text);
    let style = apply_codes(new_builder().style, flat(read_params(groups)));
    let cells = styled_row(text, style);
    assert(build(piece_actions(seq![Piece::Csi(groups, 'm')] + text_pieces(text))) =~= seq![cells]);
}

/// The model of a grid has its rows, cell by cell.
pub proof fn grids_are_modelled_row_by_row(lines: Seq<Line>)
    ensures
        grid_view(lines).len() == lines.len(),
        forall|i: int| 0 <= i < lines.len() ==> #[trigger] grid_view(lines)[i] == lines[i]@,
{
}

} // verus!

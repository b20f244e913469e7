//! What is painted: the visible rows of the grid and the status bar.
use vstd::prelude::*;
use vstd::string::*;

use crate::dump::{build, new_builder, Cell, GridBuilderView};
use crate::state::{larger, smaller, Mode, State, StateView};
use crate::style::{
    code_list, plain_style, sgr_establishes_style, sgr_sequence, single_params,
    single_params_are_listed, Style,
};
use crate::text::{decimal, push_decimal};
use crate::vt::{all_readable, flat, piece_actions, stream, Piece};

verus! {

/// The sequence that resets the style.
pub open spec fn reset() -> Seq<char> {
    seq!['\x1b', '[', '0', 'm']
}

/// What ends a painted row.
pub open spec fn row_end() -> Seq<char> {
    seq!['\r', '\n']
}

/// The texts one after the other.
pub open spec fn concat_all(texts: Seq<Seq<char>>) -> Seq<char>
    decreases texts.len(),
{
    if texts.len() == 0 {
        seq![]
    } else {
        concat_all(texts.drop_last()) + texts.last()
    }
}

/// `text` in exactly `cols` columns: cut off, or filled up with spaces.
pub open spec fn fitted(text: Seq<char>, cols: int) -> Seq<char> {
    if text.len() > cols {
        text.take(cols)
    } else {
        text + Seq::new((cols - text.len()) as nat, |i: int| ' ')
    }
}

/// The name of a mode in the status bar.
pub open spec fn mode_label(mode: Mode) -> Seq<char> {
    match mode {
        Mode::Normal => "COPY"@,
        Mode::Visual => "VISUAL"@,
        Mode::VisualLine => "V-LINE"@,
        Mode::Search => "SEARCH"@,
    }
}

/// The key hints of a mode in the status bar.
pub open spec fn mode_hints(mode: Mode) -> Seq<char> {
    match mode {
        Mode::Normal => "j/k move · v select · y yank · / search · q quit"@,
        Mode::Visual => "move to extend · y yank · Esc cancel"@,
        Mode::VisualLine => "move to extend · y yank · Esc cancel"@,
        Mode::Search => ""@,
    }
}

impl StateView {
    /// The style in which a cell is painted: reversed under the cursor and in the
    /// selection.
    pub open spec fn shown_style(self, row: int, col: int) -> Style {
        let style = self.grid[row][col].style;
        if (row == self.cur_row && col == self.cur_col) || self.is_selected(row, col) {
            Style { reverse: !style.reverse, ..style }
        } else {
            style
        }
    }

    /// The first `n` cells of a row as they are painted: the sequence of a style before
    /// each cell that is painted in another style than the one before it.
    pub open spec fn painted_cells(self, row: int, n: int) -> Seq<char>
        decreases n,
    {
        if n <= 0 {
            seq![]
        } else {
            let style = self.shown_style(row, n - 1);
            let change = n == 1 || style != self.shown_style(row, n - 2);
            self.painted_cells(row, n - 1) + (if change {
                sgr_sequence(style.codes())
            } else {
                seq![]
            }) + seq![self.grid[row][n - 1].ch]
        }
    }

    /// A row of the grid as it is painted, as far as it fits into the columns.
    pub open spec fn painted_row(self, row: int) -> Seq<char> {
        self.painted_cells(row, smaller(self.line_len(row), self.cols)) + reset() + row_end()
    }

    /// The row before which the visible part of the grid ends.
    pub open spec fn visible_end(self) -> int {
        smaller(self.scroll + self.content_rows(), self.grid.len() as int)
    }

    /// The painted rows above the status bar, as many as the pane has for them: those of
    /// the visible part of the grid, then empty ones.
    pub open spec fn painted_rows(self) -> Seq<Seq<char>> {
        let end = self.visible_end();
        Seq::new(larger(end - self.scroll, 0) as nat, |i: int| self.painted_row(self.scroll + i))
            + Seq::new(
            (self.content_rows() - larger(end - self.scroll, 0)) as nat,
            |i: int| row_end(),
        )
    }

    /// The text of the status bar, before it is fitted to the width of the pane: the
    /// mode with the cursor's row and hints, or with the query being typed.
    pub open spec fn status_text(self) -> Seq<char> {
        if self.mode == Mode::Search {
            " "@ + mode_label(self.mode) + "  /"@ + self.search_input
        } else {
            " "@ + mode_label(self.mode) + "  "@ + decimal((self.cur_row + 1) as nat) + "/"@
                + decimal(self.grid.len()) + "  "@ + mode_hints(self.mode)
        }
    }

    /// The status bar: bold, white on blue.
    pub open spec fn status_bar(self, cols: int) -> Seq<char> {
        "\x1b[1m\x1b[48;5;24m\x1b[38;5;231m"@ + fitted(self.status_text(), cols) + "\x1b[0m"@
    }

    /// The state after a paint: the size is noted, and the first paint that has something
    /// to show starts at the bottom of the grid, with the cursor in view.
    pub open spec fn after_render(self, rows: int, cols: int) -> StateView {
        let sized = StateView { rows, cols, ..self };
        if self.loaded && self.needs_initial_scroll {
            let bottom = larger(self.grid.len() - sized.content_rows(), 0);
            StateView {
                needs_initial_scroll: false,
                ..(StateView { scroll: bottom, ..sized }).scrolled()
            }
        } else {
            sized
        }
    }

    /// What is painted: nothing until there is something to show; then the rows, and the
    /// status bar below them.
    pub open spec fn frame(self) -> Seq<char> {
        if self.loaded {
            concat_all(self.painted_rows()) + self.status_bar(self.cols)
        } else {
            seq![]
        }
    }
}

/// `text` in exactly `cols` columns, appended.
fn push_fitted(out: &mut String, text: &str, cols: usize)
    ensures
        final(out)@ == old(out)@ + fitted(text@, cols as int),
{
    let width: usize = text.unicode_len();
    let spaces = Ghost(Seq::new((cols - text@.len()) as nat, |i: int| ' '));
    if width > cols {
        out.append(text.substring_char(0, cols));
        assert(text@.subrange(0, cols as int) =~= text@.take(cols as int));
    } else {
        out.append(text);
        let ghost before = out@;
        let mut i: usize = width;
        assert(before + spaces@.take(0) =~= before);
        while i < cols
            invariant
                width <= i <= cols,
                spaces@ == Seq::new((cols - width) as nat, |i: int| ' '),
                out@ == before + spaces@.take(i - width),
            decreases cols - i,
        {
            out.push(' ');
            i = i + 1;
            assert(out@ =~= before + spaces@.take(i - width));
        }
        assert(spaces@.take(cols - width) =~= spaces@);
        assert(out@ =~= old(out)@ + fitted(text@, cols as int));
    }
}

/// Appends an empty row.
fn push_empty_row(out: &mut String)
    ensures
        final(out)@ == old(out)@ + row_end(),
{
    out.push('\r');
    out.push('\n');
    assert(out@ =~= old(out)@ + row_end());
}

proof fn concat_one_more(texts: Seq<Seq<char>>, n: int)
    requires
        0 <= n < texts.len(),
    ensures
        concat_all(texts.take(n + 1)) == concat_all(texts.take(n)) + texts[n],
{
    assert(texts.take(n + 1).drop_last() =~= texts.take(n));
}

impl State {
    /// Appends a cell as it is painted behind one in the style `last`, and hands out its
    /// own style.
    fn push_cell(&self, out: &mut String, row: usize, col: usize, last: Option<Style>) -> (r: Style)
        requires
            row < self@.grid.len(),
            col < self@.grid[row as int].len(),
        ensures
            r == self@.shown_style(row as int, col as int),
            final(out)@ == old(out)@ + ((if last == Some(r) {
                seq![]
            } else {
                sgr_sequence(r.codes())
            }) + seq![self@.grid[row as int][col as int].ch]),
    {
        let cell: Cell = self.grid[row][col];
        let mut style: Style = cell.style;
        if (row == self.cur_row && col == self.cur_col) || self.is_selected(row, col) {
            style.reverse = !style.reverse;
        }
        let same: bool = match last {
            Some(s) => s == style,
            None => false,
        };
        if !same {
            out.append(style.sgr().as_str());
        }
        out.push(cell.ch);
        assert(out@ =~= old(out)@ + ((if same {
            seq![]
        } else {
            sgr_sequence(style.codes())
        }) + seq![cell.ch]));
        style
    }

    /// Appends a row of the grid as it is painted.
    fn push_row(&self, out: &mut String, row: usize)
        requires
            row < self.grid.len(),
        ensures
            final(out)@ == old(out)@ + self@.painted_row(row as int),
    {
        let len: usize = self.line_len(row);
        let n: usize = if len < self.cols {
            len
        } else {
            self.cols
        };
        let mut last: Option<Style> = None;
        let mut col: usize = 0;
        let ghost view = self@;
        assert(out@ + view.painted_cells(row as int, 0) =~= out@);
        while col < n
            invariant
                col <= n <= view.grid[row as int].len(),
                row < view.grid.len(),
                view == self@,
                last == if col == 0 {
                    None
                } else {
                    Some(view.shown_style(row as int, col - 1))
                },
                out@ == old(out)@ + view.painted_cells(row as int, col as int),
            decreases n - col,
        {
            let style: Style = self.push_cell(out, row, col, last);
            last = Some(style);
            assert(out@ =~= old(out)@ + view.painted_cells(row as int, col + 1));
            col = col + 1;
        }
        out.push('\x1b');
        out.push('[');
        out.push('0');
        out.push('m');
        push_empty_row(out);
        assert(out@ =~= old(out)@ + view.painted_row(row as int));
    }

    /// The status bar: the mode, with the cursor's row and key hints or with the query
    /// being typed, in exactly `cols` columns.
    pub fn status_bar(&self, cols: usize) -> (r: String)
        ensures
            r@ == self@.status_bar(cols as int),
    {
        let (label, hints) = match self.mode {
            Mode::Normal => ("COPY", "j/k move · v select · y yank · / search · q quit"),
            Mode::Visual => ("VISUAL", "move to extend · y yank · Esc cancel"),
            Mode::VisualLine => ("V-LINE", "move to extend · y yank · Esc cancel"),
            Mode::Search => ("SEARCH", ""),
        };
        let mut text = " ".to_owned();
        text.append(label);
        if self.mode == Mode::Search {
            text.append("  /");
            text.append(self.search_input.as_str());
        } else {
            text.append("  ");
            push_decimal(&mut text, self.cur_row as u128 + 1);
            text.append("/");
            push_decimal(&mut text, self.grid.len() as u128);
            text.append("  ");
            text.append(hints);
        }
        assert(text@ == self@.status_text());
        let mut out = "\x1b[1m\x1b[48;5;24m\x1b[38;5;231m".to_owned();
        push_fitted(&mut out, text.as_str(), cols);
        out.append("\x1b[0m");
        out
    }

    /// Takes note of the size of our pane, and hands out what to print: nothing until the
    /// scrollback is loaded, then the visible rows and the status bar.
    pub fn render(&mut self, rows: usize, cols: usize) -> (r: String)
        ensures
            final(self)@ == old(self)@.after_render(rows as int, cols as int),
            r@ == final(self)@.frame(),
    {
        self.rows = rows;
        self.cols = cols;
        let mut out = String::new();
        if !self.loaded {
            return out;
        }
        let content: usize = self.content_rows();
        if self.needs_initial_scroll {
            self.scroll = self.grid.len().saturating_sub(content);
            self.scroll_to_cursor();
            self.needs_initial_scroll = false;
        }
        assert(self@ =~= old(self)@.after_render(rows as int, cols as int));
        self.push_rows(&mut out);
        out.append(self.status_bar(cols).as_str());
        assert(out@ =~= self@.frame());
        out
    }

    /// Appends the painted rows above the status bar.
    fn push_rows(&self, out: &mut String)
        ensures
            final(out)@ == old(out)@ + concat_all(self@.painted_rows()),
    {
        let content: usize = self.content_rows();
        let ghost all = self@.painted_rows();
        let len: usize = self.grid.len();
        let shown: usize = if self.scroll >= len {
            0
        } else if len - self.scroll < content {
            len - self.scroll
        } else {
            content
        };
        let pad: usize = content - shown;
        assert(all.len() == shown + pad);
        let mut i: usize = 0;
        assert(all.take(0) =~= seq![]);
        assert(out@ + seq![] =~= out@);
        while i < shown
            invariant
                i <= shown,
                self.scroll + shown <= self.grid.len() || shown == 0,
                all == self@.painted_rows(),
                shown == larger(self@.visible_end() - self@.scroll, 0),
                out@ == old(out)@ + concat_all(all.take(i as int)),
            decreases shown - i,
        {
            self.push_row(out, self.scroll + i);
            proof {
                concat_one_more(all, i as int);
                assert(all[i as int] == self@.painted_row(self@.scroll + i));
                assert(out@ =~= old(out)@ + concat_all(all.take(i + 1)));
            }
            i = i + 1;
        }
        let mut k: usize = 0;
        while k < pad
            invariant
                k <= pad,
                all.len() == shown + pad,
                forall|k: int| shown <= k < all.len() ==> #[trigger] all[k] == row_end(),
                out@ == old(out)@ + concat_all(all.take(shown + k)),
            decreases pad - k,
        {
            push_empty_row(out);
            proof {
                concat_one_more(all, shown + k);
                assert(out@ =~= old(out)@ + concat_all(all.take(shown + k + 1)));
            }
            k = k + 1;
        }
        assert(all.take(all.len() as int) =~= all);
    }
}

/// The text of the status bar takes up exactly the width of the pane.
pub proof fn status_bar_fills_the_width(text: Seq<char>, cols: int)
    requires
        0 <= cols,
    ensures
        fitted(text, cols).len() == cols,
{
}

/// There are exactly as many painted rows above the status bar as the pane has for them,
/// the visible ones first.
pub proof fn status_bar_sits_at_the_bottom(s: StateView)
    requires
        0 <= s.scroll,
    ensures
        s.painted_rows().len() == s.content_rows(),
        forall|i: int|
            0 <= i < s.content_rows() ==> #[trigger] s.painted_rows()[i] == if s.scroll + i
                < s.grid.len() {
                s.painted_row(s.scroll + i)
            } else {
                row_end()
            },
{
}

/// The first paint shows the cursor; and where the cursor is in the part of the grid
/// that fits above the status bar, it shows the bottom of the grid.
pub proof fn first_paint_shows_the_bottom(s: StateView, rows: int, cols: int)
    requires
        s.loaded,
        s.needs_initial_scroll,
        0 <= rows,
        s.cursor_in_grid(),
    ensures
        ({
            let t = s.after_render(rows, cols);
            &&& t.cursor_visible()
            &&& t == (StateView { rows, cols, scroll: t.scroll, needs_initial_scroll: false, ..s })
            &&& s.cur_row >= s.grid.len() - t.content_rows() ==> t.visible_end() == s.grid.len()
                && t.scroll == larger(s.grid.len() - t.content_rows(), 0)
        }),
{
}

/// A paint changes the view on the first occasion only.
pub proof fn later_paints_keep_the_view(s: StateView, rows: int, cols: int)
    requires
        !s.needs_initial_scroll || !s.loaded,
    ensures
        s.after_render(rows, cols) == (StateView { rows, cols, ..s }),
{
}

impl StateView {
    /// The pieces of the first `n` cells of a row as they are painted.
    pub open spec fn cell_pieces(self, row: int, n: int) -> Seq<Piece>
        decreases n,
    {
        if n <= 0 {
            seq![]
        } else {
            let style = self.shown_style(row, n - 1);
            let change = n == 1 || style != self.shown_style(row, n - 2);
            let before = self.cell_pieces(row, n - 1);
            let ch = Piece::Char(self.grid[row][n - 1].ch);
            if change {
                before.push(Piece::Csi(single_params(style.codes()), 'm')).push(ch)
            } else {
                before.push(ch)
            }
        }
    }

    /// A cell as it is painted.
    pub open spec fn shown_cell(self, row: int, col: int) -> Cell {
        Cell { ch: self.grid[row][col].ch, style: self.shown_style(row, col) }
    }
}

proof fn flat_of_singles(codes: Seq<u16>)
    ensures
        flat(single_params(codes)) == codes,
    decreases codes.len(),
{
    let groups = single_params(codes);
    if codes.len() > 0 {
        flat_of_singles(codes.drop_last());
        assert(groups.drop_last() =~= single_params(codes.drop_last()));
        assert(groups.last() == seq![codes.last()]);
        assert(flat(groups) =~= codes);
    } else {
        assert(flat(groups) =~= codes);
    }
}

proof fn one_piece_more(pieces: Seq<Piece>, p: Piece)
    ensures
        stream(pieces.push(p)) == stream(pieces) + p.chars(),
        new_builder().perform_all(piece_actions(pieces.push(p))) == new_builder().perform_all(
            piece_actions(pieces),
        ).perform(p.action()),
        all_readable(pieces) && p.readable() ==> all_readable(pieces.push(p)),
{
    assert(pieces.push(p).drop_last() =~= pieces);
    assert(piece_actions(pieces.push(p)).drop_last() =~= piece_actions(pieces));
    assert(piece_actions(pieces.push(p)).last() == p.action());
}

proof fn codes_are_few(style: Style)
    ensures
        1 <= style.codes().len() <= 32,
{
}

proof fn painted_cells_read_back(s: StateView, row: int, n: int)
    requires
        0 <= row < s.grid.len(),
        0 <= n <= s.grid[row].len(),
        forall|col: int| 0 <= col < n ==> (#[trigger] s.grid[row][col]).ch as u32 >= 32,
    ensures
        all_readable(s.cell_pieces(row, n)),
        stream(s.cell_pieces(row, n)) == s.painted_cells(row, n),
        new_builder().perform_all(piece_actions(s.cell_pieces(row, n))) == (GridBuilderView {
            lines: seq![],
            cur: Seq::new(n as nat, |col: int| s.shown_cell(row, col)),
            style: if n == 0 {
                plain_style()
            } else {
                s.shown_style(row, n - 1)
            },
        }),
    decreases n,
{
    let cells = Seq::new(n as nat, |col: int| s.shown_cell(row, col));
    if n == 0 {
        assert(piece_actions(s.cell_pieces(row, n)) =~= seq![]);
        assert(cells =~= seq![]);
    } else {
        let before = s.cell_pieces(row, n - 1);
        let style = s.shown_style(row, n - 1);
        let ch = s.grid[row][n - 1].ch;
        let front = Seq::new((n - 1) as nat, |col: int| s.shown_cell(row, col));
        painted_cells_read_back(s, row, n - 1);
        assert(cells =~= front.push(s.shown_cell(row, n - 1)));
        if n == 1 || style != s.shown_style(row, n - 2) {
            let change = Piece::Csi(single_params(style.codes()), 'm');
            codes_are_few(style);
            one_piece_more(before, change);
            one_piece_more(before.push(change), Piece::Char(ch));
            flat_of_singles(style.codes());
            single_params_are_listed(style.codes());
            sgr_establishes_style(
                new_builder().perform_all(piece_actions(before)).style,
                style,
            );
            assert(s.painted_cells(row, n) =~= s.painted_cells(row, n - 1) + sgr_sequence(
                style.codes(),
            ) + seq![ch]);
        } else {
            one_piece_more(before, Piece::Char(ch));
            assert(s.painted_cells(row, n) =~= s.painted_cells(row, n - 1) + seq![ch]);
        }
    }
}

/// A painted row says what it shows: parsed like a dump, it gives back the visible cells
/// of that row in the styles in which they are shown. No cell may hold a control
/// character.
pub proof fn painted_rows_read_back(s: StateView, row: int)
    requires
        0 <= row < s.grid.len(),
        0 <= s.cols,
        forall|col: int|
            0 <= col < s.grid[row].len() ==> (#[trigger] s.grid[row][col]).ch as u32 >= 32,
    ensures
        ({
            let n = smaller(s.line_len(row), s.cols);
            let pieces = s.cell_pieces(row, n).push(Piece::Csi(seq![seq![0]], 'm')).push(
                Piece::Char('\r'),
            ).push(Piece::Char('\n'));
            &&& all_readable(pieces)
            &&& stream(pieces) == s.painted_row(row)
            &&& build(piece_actions(pieces)) == seq![
                Seq::new(n as nat, |col: int| s.shown_cell(row, col)),
            ]
        }),
{
    let n = smaller(s.line_len(row), s.cols);
    let p0 = s.cell_pieces(row, n);
    let p1 = p0.push(Piece::Csi(seq![seq![0]], 'm'));
    let p2 = p1.push(Piece::Char('\r'));
    let p3 = p2.push(Piece::Char('\n'));
    let cells = Seq::new(n as nat, |col: int| s.shown_cell(row, col));
    painted_cells_read_back(s, row, n);
    one_piece_more(p0, Piece::Csi(seq![seq![0]], 'm'));
    one_piece_more(p1, Piece::Char('\r'));
    one_piece_more(p2, Piece::Char('\n'));
    assert(decimal(0) =~= seq!['0']);
    assert(code_list(seq![0u16]) =~= seq!['0']);
    single_params_are_listed(seq![0u16]);
    flat_of_singles(seq![0u16]);
    assert(single_params(seq![0u16]) =~= seq![seq![0u16]]);
    assert(sgr_sequence(seq![0u16]) =~= reset());
    assert(stream(p3) =~= s.painted_row(row));
    assert(new_builder().perform_all(piece_actions(p3)).lines =~= seq![cells]);
}

} // verus!

//! A dump of a terminal pane, parsed into a grid of styled cells.
use vstd::prelude::*;
use vstd::utf8::encode_utf8;

use crate::style::{apply_codes, plain_style, styled, Style};
use crate::text::{lines_nonempty, lines_of};
use crate::vt::{
    actions_view, advance, all_readable, flat, groups_view, new_parser, parser_actions, parser_input,
    piece_actions, read_params, reads_pieces, stream, Action, ActionView, Piece,
};

verus! {

/// One character of the grid, with its style.
#[derive(Clone, Copy, Debug, PartialEq, Eq, Structural)]
pub struct Cell {
    pub ch: char,
    pub style: Style,
}

impl Default for Cell {
    fn default() -> (r: Self)
        ensures
            r == (Cell { ch: ' ', style: plain_style() }),
    {
        Cell { ch: ' ', style: Style::default() }
    }
}

/// A row of the grid.
pub type Line = Vec<Cell>;

/// The model of a grid.
pub open spec fn grid_view(lines: Seq<Line>) -> Seq<Seq<Cell>> {
    lines.map_values(|l: Line| l@)
}

/// A grid under construction: the finished lines, the current line, and the style in
/// which the next character is drawn.
pub struct GridBuilder {
    pub lines: Vec<Line>,
    pub cur: Line,
    pub style: Style,
}

/// The model of a `GridBuilder`.
#[verifier::ext_equal]
pub struct GridBuilderView {
    pub lines: Seq<Seq<Cell>>,
    pub cur: Seq<Cell>,
    pub style: Style,
}

/// The builder of a new grid.
pub open spec fn new_builder() -> GridBuilderView {
    GridBuilderView { lines: seq![], cur: seq![], style: plain_style() }
}

impl GridBuilderView {
    /// The builder after one action: a printed character goes to the end of the current
    /// line, a newline ends the line, an SGR sequence changes the style, and nothing
    /// else counts.
    pub open spec fn perform(self, action: ActionView) -> GridBuilderView {
        match action {
            ActionView::Print(c) => GridBuilderView {
                cur: self.cur.push(Cell { ch: c, style: self.style }),
                ..self
            },
            ActionView::Execute(b) => if b == 10 {
                GridBuilderView { lines: self.lines.push(self.cur), cur: seq![], ..self }
            } else {
                self
            },
            ActionView::Csi(groups, c) => if c == 'm' {
                GridBuilderView { style: apply_codes(self.style, flat(groups)), ..self }
            } else {
                self
            },
        }
    }

    /// The builder after the actions, performed in order.
    pub open spec fn perform_all(self, actions: Seq<ActionView>) -> GridBuilderView
        decreases actions.len(),
    {
        if actions.len() == 0 {
            self
        } else {
            self.perform_all(actions.drop_last()).perform(actions.last())
        }
    }

    /// The finished grid. A current line that is still empty is no row of it.
    pub open spec fn finish(self) -> Seq<Seq<Cell>> {
        if self.cur.len() == 0 {
            self.lines
        } else {
            self.lines.push(self.cur)
        }
    }
}

/// The grid that the actions build.
pub open spec fn build(actions: Seq<ActionView>) -> Seq<Seq<Cell>> {
    new_builder().perform_all(actions).finish()
}

impl View for GridBuilder {
    type V = GridBuilderView;

    open spec fn view(&self) -> GridBuilderView {
        GridBuilderView { lines: grid_view(self.lines@), cur: self.cur@, style: self.style }
    }
}

impl Default for GridBuilder {
    fn default() -> (r: Self)
        ensures
            r@ == new_builder(),
    {
        let r = GridBuilder { lines: Vec::new(), cur: Vec::new(), style: Style::default() };
        assert(r@ =~= new_builder());
        r
    }
}

impl GridBuilder {
    /// The grid that has been built. A current line that is still empty is no row of it.
    pub fn finish(self) -> (r: Vec<Line>)
        ensures
            grid_view(r@) == self@.finish(),
    {
        let mut lines = self.lines;
        if !self.cur.is_empty() {
            lines.push(self.cur);
        }
        assert(grid_view(lines@) =~= self@.finish());
        lines
    }

    /// Changes the style as an SGR sequence with these parameters does, whether they
    /// are separated by semicolons or by colons.
    pub fn apply_sgr(&mut self, groups: &Vec<Vec<u16>>)
        ensures
            final(self)@ == (GridBuilderView {
                style: apply_codes(old(self).style, flat(groups_view(*groups))),
                ..old(self)@
            }),
    {
        let codes = flatten(groups);
        self.style = styled(self.style, &codes);
    }

    /// Appends a character to the current line, in the current style.
    pub fn print(&mut self, c: char)
        ensures
            final(self)@ == old(self)@.perform(ActionView::Print(c)),
    {
        self.cur.push(Cell { ch: c, style: self.style });
    }

    /// Executes a control byte: a newline ends the current line, and no other counts.
    pub fn execute(&mut self, byte: u8)
        ensures
            final(self)@ == old(self)@.perform(ActionView::Execute(byte)),
    {
        if byte == 10 {
            let mut line: Line = Vec::new();
            std::mem::swap(&mut line, &mut self.cur);
            self.lines.push(line);
            assert(self@ =~= old(self)@.perform(ActionView::Execute(byte)));
        }
    }

    /// Dispatches a control sequence: only SGR sequences count.
    pub fn csi_dispatch(&mut self, groups: &Vec<Vec<u16>>, action: char)
        ensures
            final(self)@ == old(self)@.perform(ActionView::Csi(groups_view(*groups), action)),
    {
        if action == 'm' {
            self.apply_sgr(groups);
        }
    }

    /// Performs the actions in order.
    pub fn perform_all(&mut self, actions: &Vec<Action>)
        ensures
            final(self)@ == old(self)@.perform_all(actions_view(actions@)),
    {
        let mut i: usize = 0;
        let ghost views = actions_view(actions@);
        assert(views.take(0) =~= seq![]);
        while i < actions.len()
            invariant
                i <= actions.len(),
                views == actions_view(actions@),
                self@ == old(self)@.perform_all(views.take(i as int)),
            decreases actions.len() - i,
        {
            assert(views.take(i + 1).drop_last() =~= views.take(i as int));
            assert(views.take(i + 1).last() == actions[i as int]@);
            match &actions[i] {
                Action::Print(c) => self.print(*c),
                Action::Execute(byte) => self.execute(*byte),
                Action::Csi(groups, action) => self.csi_dispatch(groups, *action),
            }
            i = i + 1;
        }
        assert(views.take(actions.len() as int) =~= views);
    }
}

/// The parameters, each followed by its subparameters, in one row.
fn flatten(groups: &Vec<Vec<u16>>) -> (r: Vec<u16>)
    ensures
        r@ == flat(groups_view(*groups)),
{
    let mut codes: Vec<u16> = Vec::new();
    let mut i: usize = 0;
    let ghost views = groups_view(*groups);
    assert(views.take(0) =~= seq![]);
    while i < groups.len()
        invariant
            i <= groups.len(),
            views == groups_view(*groups),
            codes@ == flat(views.take(i as int)),
        decreases groups.len() - i,
    {
        let group = &groups[i];
        let ghost before = codes@;
        let mut j: usize = 0;
        assert(before + group@.take(0) =~= before);
        while j < group.len()
            invariant
                j <= group.len(),
                codes@ == before + group@.take(j as int),
            decreases group.len() - j,
        {
            codes.push(group[j]);
            j = j + 1;
            assert(codes@ =~= before + group@.take(j as int));
        }
        assert(group@.take(group.len() as int) =~= group@);
        assert(views.take(i + 1).drop_last() =~= views.take(i as int));
        i = i + 1;
    }
    assert(views.take(groups.len() as int) =~= views);
    codes
}

proof fn perform_all_concat(b: GridBuilderView, first: Seq<ActionView>, second: Seq<ActionView>)
    ensures
        b.perform_all(first + second) == b.perform_all(first).perform_all(second),
    decreases second.len(),
{
    if second.len() == 0 {
        assert(first + second =~= first);
    } else {
        assert((first + second).drop_last() =~= first + second.drop_last());
        perform_all_concat(b, first, second.drop_last());
    }
}

/// The grid that a dump shows: the actions of the terminal parser, built up. Where the
/// dump consists of characters and control sequences, these are the actions of its
/// pieces.
pub fn parse_dump(bytes: &[u8]) -> (r: Vec<Line>)
    ensures
        grid_view(r@) == build(parser_actions(bytes@)),
        forall|pieces: Seq<Piece>|
            all_readable(pieces) && bytes@ == encode_utf8(#[trigger] stream(pieces)) ==> grid_view(
                r@,
            ) == build(piece_actions(pieces)),
{
    let mut parser = new_parser();
    let mut builder = GridBuilder::default();
    let mut i: usize = 0;
    assert(bytes@.take(0) =~= Seq::<u8>::empty());
    while i < bytes.len()
        invariant
            i <= bytes.len(),
            parser_input(parser) == bytes@.take(i as int),
            reads_pieces(parser_input(parser)),
            builder@ == new_builder().perform_all(parser_actions(parser_input(parser))),
        decreases bytes.len() - i,
    {
        let ghost before = parser_actions(parser_input(parser));
        let actions = advance(&mut parser, bytes[i]);
        builder.perform_all(&actions);
        proof {
            perform_all_concat(new_builder(), before, actions_view(actions@));
            assert(bytes@.take(i + 1) =~= bytes@.take(i as int).push(bytes@[i as int]));
        }
        i = i + 1;
    }
    assert(bytes@.take(bytes.len() as int) =~= bytes@);
    builder.finish()
}

/// A character in the plain style.
pub open spec fn plain_cell(c: char) -> Cell {
    Cell { ch: c, style: plain_style() }
}

/// A line of text in the plain style.
pub open spec fn plain_row(line: Seq<char>) -> Seq<Cell> {
    line.map_values(|c: char| plain_cell(c))
}

/// The piece that is a character.
pub open spec fn char_piece(c: char) -> Piece {
    Piece::Char(c)
}

/// The pieces of a text without escape sequences: its characters.
pub open spec fn text_pieces(text: Seq<char>) -> Seq<Piece> {
    text.map_values(|c: char| char_piece(c))
}

/// Whether the character leaves a trace in a grid: it is drawn, or it ends a line.
pub open spec fn counts(c: char) -> bool {
    c as u32 >= 32 || c == '\n'
}

/// The grid that a text without escape sequences makes: its lines, unstyled, without
/// the other control characters; an empty last line is no row.
pub open spec fn plain_grid(text: Seq<char>) -> Seq<Seq<Cell>> {
    let lines = lines_of(text.filter(|c: char| counts(c)));
    let rows = lines.map_values(|l: Seq<char>| plain_row(l));
    if lines.last().len() == 0 {
        rows.drop_last()
    } else {
        rows
    }
}

proof fn text_stream(text: Seq<char>)
    ensures
        stream(text_pieces(text)) == text,
    decreases text.len(),
{
    if text.len() > 0 {
        text_stream(text.drop_last());
        assert(text_pieces(text).drop_last() =~= text_pieces(text.drop_last()));
        assert(text_pieces(text).last() == Piece::Char(text.last()));
        assert(stream(text_pieces(text)) =~= text);
    } else {
        assert(stream(text_pieces(text)) =~= text);
    }
}

proof fn text_built(text: Seq<char>)
    ensures
        ({
            let lines = lines_of(text.filter(|c: char| counts(c)));
            let rows = lines.map_values(|l: Seq<char>| plain_row(l));
            new_builder().perform_all(piece_actions(text_pieces(text))) == (GridBuilderView {
                lines: rows.drop_last(),
                cur: rows.last(),
                style: plain_style(),
            })
        }),
    decreases text.len(),
{
    let keep = |c: char| counts(c);
    let drawn = text.filter(keep);
    let lines = lines_of(drawn);
    let rows = lines.map_values(|l: Seq<char>| plain_row(l));
    let actions = piece_actions(text_pieces(text));
    lines_nonempty(drawn);
    reveal(Seq::filter);
    if text.len() == 0 {
        assert(drawn =~= seq![]);
        assert(rows.drop_last() =~= seq![]);
        assert(rows.last() =~= seq![]);
    } else {
        let c = text.last();
        text_built(text.drop_last());
        let drawn0 = text.drop_last().filter(keep);
        let lines0 = lines_of(drawn0);
        let rows0 = lines0.map_values(|l: Seq<char>| plain_row(l));
        lines_nonempty(drawn0);
        assert(actions.drop_last() =~= piece_actions(text_pieces(text.drop_last())));
        assert(actions.last() == Piece::Char(c).action());
        if counts(c) {
            assert(drawn == drawn0.push(c));
            assert(drawn.drop_last() =~= drawn0);
            if c == '\n' {
                assert(lines == lines0.push(seq![]));
                assert(rows.drop_last() =~= rows0);
                assert(rows0.drop_last().push(rows0.last()) =~= rows0);
                assert(rows.last() =~= seq![]);
            } else {
                assert(rows.drop_last() =~= rows0.drop_last());
                assert(rows.last() =~= rows0.last().push(Cell { ch: c, style: plain_style() }));
            }
        } else {
            assert(drawn == drawn0);
        }
    }
}

/// A dump that carries no escape sequences is shown unstyled, line by line: whatever
/// bytes are the UTF-8 form of `text`, `parse_dump` reads them as these pieces, and
/// their grid is the plain grid of the text.
pub proof fn plain_text_is_monochrome(text: Seq<char>)
    requires
        !text.contains('\x1b'),
    ensures
        all_readable(text_pieces(text)),
        stream(text_pieces(text)) == text,
        build(piece_actions(text_pieces(text))) == plain_grid(text),
{
    text_stream(text);
    text_built(text);
    assert forall|i: int| 0 <= i < text_pieces(text).len() implies (#[trigger] text_pieces(
        text,
    )[i]).readable() by {
        assert(text.contains(text[i]));
    }
    let lines = lines_of(text.filter(|c: char| counts(c)));
    let rows = lines.map_values(|l: Seq<char>| plain_row(l));
    lines_nonempty(text.filter(|c: char| counts(c)));
    assert(rows.last().len() == lines.last().len());
    assert(rows.drop_last().push(rows.last()) =~= rows);
}

/// Whether the pieces differ at most in how the parameters of control sequences are
/// separated.
pub open spec fn same_but_for_separators(p: Seq<Piece>, q: Seq<Piece>) -> bool {
    &&& p.len() == q.len()
    &&& forall|i: int|
        0 <= i < p.len() ==> (#[trigger] p[i] == q[i] || match (p[i], q[i]) {
            (Piece::Csi(a, c), Piece::Csi(b, d)) => c == d && flat(read_params(a)) == flat(
                read_params(b),
            ),
            _ => false,
        })
}

proof fn separators_do_not_build(p: Seq<Piece>, q: Seq<Piece>)
    requires
        same_but_for_separators(p, q),
    ensures
        new_builder().perform_all(piece_actions(p)) == new_builder().perform_all(piece_actions(q)),
    decreases p.len(),
{
    if p.len() > 0 {
        let p0 = p.drop_last();
        let q0 = q.drop_last();
        assert forall|i: int| 0 <= i < p0.len() implies (#[trigger] p0[i] == q0[i] || match (
            p0[i],
            q0[i],
        ) {
            (Piece::Csi(a, c), Piece::Csi(b, d)) => c == d && flat(read_params(a)) == flat(
                read_params(b),
            ),
            _ => false,
        }) by {
            assert(p0[i] == p[i]);
        }
        separators_do_not_build(p0, q0);
        assert(piece_actions(p).drop_last() =~= piece_actions(p0));
        assert(piece_actions(q).drop_last() =~= piece_actions(q0));
        assert(p[p.len() - 1] == p.last());
    } else {
        assert(piece_actions(p) =~= piece_actions(q));
    }
}

/// It does not matter for the grid whether the parameters of control sequences are
/// separated by semicolons or by colons.
pub proof fn separators_do_not_matter(p: Seq<Piece>, q: Seq<Piece>)
    requires
        same_but_for_separators(p, q),
    ensures
        build(piece_actions(p)) == build(piece_actions(q)),
{
    separators_do_not_build(p, q);
}

/// Whether the piece can leave a trace in a grid: it is a character or an SGR sequence.
pub open spec fn matters(p: Piece) -> bool {
    match p {
        Piece::Char(_) => true,
        Piece::Csi(_, c) => c == 'm',
    }
}

proof fn other_sequences_do_not_build(pieces: Seq<Piece>)
    ensures
        new_builder().perform_all(piece_actions(pieces.filter(|p: Piece| matters(p))))
            == new_builder().perform_all(piece_actions(pieces)),
    decreases pieces.len(),
{
    reveal(Seq::filter);
    let kept = pieces.filter(|p: Piece| matters(p));
    if pieces.len() == 0 {
        assert(piece_actions(kept) =~= piece_actions(pieces));
    } else {
        let before = pieces.drop_last();
        let kept_before = before.filter(|p: Piece| matters(p));
        other_sequences_do_not_build(before);
        assert(piece_actions(pieces).drop_last() =~= piece_actions(before));
        if matters(pieces.last()) {
            assert(kept == kept_before.push(pieces.last()));
            assert(kept.drop_last() =~= kept_before);
            assert(piece_actions(kept).drop_last() =~= piece_actions(kept_before));
        } else {
            assert(kept == kept_before);
        }
    }
}

/// Control sequences other than SGR sequences leave no trace in the grid.
pub proof fn other_sequences_do_not_matter(pieces: Seq<Piece>)
    ensures
        build(piece_actions(pieces.filter(|p: Piece| matters(p)))) == build(
            piece_actions(pieces),
        ),
{
    other_sequences_do_not_build(pieces);
}

/// An SGR sequence without parameters goes back to the plain style, as one with a single
/// zero does, and changes nothing else.
pub proof fn a_bare_sequence_resets(b: GridBuilderView)
    ensures
        b.perform(Piece::Csi(seq![], 'm').action()) == (GridBuilderView {
            style: plain_style(),
            ..b
        }),
        b.perform(Piece::Csi(seq![seq![0]], 'm').action()) == (GridBuilderView {
            style: plain_style(),
            ..b
        }),
{
    reveal_with_fuel(flat, 2);
    let zero: Seq<Seq<u16>> = seq![seq![0]];
    assert(zero.drop_last() =~= seq![]);
    assert(flat(zero) =~= seq![0u16]);
}

} // verus!

//! The terminal-stream parser of the `vte` crate, and what it asks its client to do.
use vstd::prelude::*;
use vstd::utf8::encode_utf8;
use vte::{Params, Parser, Perform};

use crate::style::param_list;

verus! {

/// The parser of `vte`.
#[verifier::external_type_specification]
#[verifier::external_body]
pub struct ExParser<const N: usize>(vte::Parser<N>);

/// The parameters of a control sequence, as `vte` hands them over.
#[verifier::external_type_specification]
#[verifier::external_body]
pub struct ExParams(vte::Params);

/// The bytes that a parser has been advanced over since it was made.
pub uninterp spec fn parser_input(parser: vte::Parser) -> Seq<u8>;

/// The parameters of a control sequence, each with its subparameters.
pub uninterp spec fn param_groups(params: vte::Params) -> Seq<Seq<u16>>;

/// All that a new parser asks of its client while it reads `bytes`.
pub uninterp spec fn parser_actions(bytes: Seq<u8>) -> Seq<ActionView>;

/// One thing that the parser asks of its client: to print a character, to execute a
/// control byte, or to dispatch a control sequence with its parameters and its final
/// character. Its other requests are of no use to a dump of a screen.
pub enum Action {
    Print(char),
    Execute(u8),
    Csi(Vec<Vec<u16>>, char),
}

/// The model of an `Action`.
pub enum ActionView {
    Print(char),
    Execute(u8),
    Csi(Seq<Seq<u16>>, char),
}

impl View for Action {
    type V = ActionView;

    open spec fn view(&self) -> ActionView {
        match *self {
            Action::Print(c) => ActionView::Print(c),
            Action::Execute(b) => ActionView::Execute(b),
            Action::Csi(groups, c) => ActionView::Csi(groups_view(groups), c),
        }
    }
}

/// The model of a list of parameters with their subparameters.
pub open spec fn groups_view(groups: Vec<Vec<u16>>) -> Seq<Seq<u16>> {
    groups@.map_values(|g: Vec<u16>| g@)
}

/// The model of a list of actions.
pub open spec fn actions_view(actions: Seq<Action>) -> Seq<ActionView> {
    actions.map_values(|a: Action| a@)
}

/// The parameters, each followed by its subparameters, in one row.
pub open spec fn flat(groups: Seq<Seq<u16>>) -> Seq<u16>
    decreases groups.len(),
{
    if groups.len() == 0 {
        seq![]
    } else {
        flat(groups.drop_last()) + groups.last()
    }
}

/// A piece of a terminal stream: a character, or a control sequence with its parameters
/// and its final character.
pub enum Piece {
    Char(char),
    Csi(Seq<Seq<u16>>, char),
}

/// The parameters that a control sequence is read with: a single zero where it has none.
pub open spec fn read_params(groups: Seq<Seq<u16>>) -> Seq<Seq<u16>> {
    if groups.len() == 0 {
        seq![seq![0]]
    } else {
        groups
    }
}

impl Piece {
    /// Whether the piece is one that a parser between two pieces reads as a whole:
    /// a character other than the escape, or a control sequence with at most thirty-two
    /// parameters, subparameters among them, and a final character that may end one.
    pub open spec fn readable(self) -> bool {
        match self {
            Piece::Char(c) => c != '\x1b',
            Piece::Csi(groups, c) => {
                &&& 0x40 <= c as u32 <= 0x7e
                &&& flat(groups).len() <= 32
                &&& forall|i: int| 0 <= i < groups.len() ==> (#[trigger] groups[i]).len() > 0
            },
        }
    }

    /// The characters that carry the piece.
    pub open spec fn chars(self) -> Seq<char> {
        match self {
            Piece::Char(c) => seq![c],
            Piece::Csi(groups, c) => seq!['\x1b', '['] + param_list(groups) + seq![c],
        }
    }

    /// What a parser asks of its client when it has read the piece.
    pub open spec fn action(self) -> ActionView {
        match self {
            Piece::Char(c) => if (c as u32) < 32 {
                ActionView::Execute(c as u8)
            } else {
                ActionView::Print(c)
            },
            Piece::Csi(groups, c) => ActionView::Csi(read_params(groups), c),
        }
    }
}

/// Whether every piece is readable.
pub open spec fn all_readable(pieces: Seq<Piece>) -> bool {
    forall|i: int| 0 <= i < pieces.len() ==> (#[trigger] pieces[i]).readable()
}

/// The characters of the pieces, one after the other.
pub open spec fn stream(pieces: Seq<Piece>) -> Seq<char>
    decreases pieces.len(),
{
    if pieces.len() == 0 {
        seq![]
    } else {
        stream(pieces.drop_last()) + pieces.last().chars()
    }
}

/// The actions of the pieces, one for each.
pub open spec fn piece_actions(pieces: Seq<Piece>) -> Seq<ActionView> {
    pieces.map_values(|p: Piece| p.action())
}

/// Where `bytes` are the UTF-8 form of readable pieces, a new parser that reads them
/// asks for the action of each piece, in order, and for nothing else.
pub open spec fn reads_pieces(bytes: Seq<u8>) -> bool {
    forall|pieces: Seq<Piece>|
        all_readable(pieces) && bytes == encode_utf8(#[trigger] stream(pieces)) ==> parser_actions(
            bytes,
        ) == piece_actions(pieces)
}

/// `vte::Params::iter` hands out the parameters in order, each with its subparameters.
#[verifier::external_body]
fn collect_params(params: &Params) -> (r: Vec<Vec<u16>>)
    ensures
        groups_view(r) == param_groups(*params),
{
    params.iter().map(|group| group.to_vec()).collect()
}

/// A client of the parser that notes down what is asked of it.
pub struct Recorder {
    pub actions: Vec<Action>,
}

impl Perform for Recorder {
    fn print(&mut self, c: char)
        ensures
            actions_view(final(self).actions@) == actions_view(old(self).actions@).push(
                ActionView::Print(c),
            ),
    {
        self.actions.push(Action::Print(c));
        assert(actions_view(self.actions@) =~= actions_view(old(self).actions@).push(
            ActionView::Print(c),
        ));
    }

    fn execute(&mut self, byte: u8)
        ensures
            actions_view(final(self).actions@) == actions_view(old(self).actions@).push(
                ActionView::Execute(byte),
            ),
    {
        self.actions.push(Action::Execute(byte));
        assert(actions_view(self.actions@) =~= actions_view(old(self).actions@).push(
            ActionView::Execute(byte),
        ));
    }

    fn csi_dispatch(&mut self, params: &Params, _inter: &[u8], _ignore: bool, action: char)
        ensures
            actions_view(final(self).actions@) == actions_view(old(self).actions@).push(
                ActionView::Csi(param_groups(*params), action),
            ),
    {
        self.actions.push(Action::Csi(collect_params(params), action));
        assert(actions_view(self.actions@) =~= actions_view(old(self).actions@).push(
            ActionView::Csi(param_groups(*params), action),
        ));
    }
}

/// `vte::Parser::new` makes a parser that has read nothing and asked for nothing.
#[verifier::external_body]
pub(crate) fn new_parser() -> (r: Parser)
    ensures
        parser_input(r) == Seq::<u8>::empty(),
        parser_actions(parser_input(r)) == Seq::<ActionView>::empty(),
        reads_pieces(parser_input(r)),
{
    Parser::new()
}

/// `vte::Parser::advance` reads one more byte. What it asks of its client for that
/// byte follows from the bytes read so far and from the byte, in whatever state the
/// client is; characters and control sequences without private markers or intermediate
/// characters are read as `reads_pieces` says. What other bytes make it ask for is not
/// stated.
#[verifier::external_body]
pub(crate) fn advance(parser: &mut Parser, byte: u8) -> (r: Vec<Action>)
    ensures
        parser_input(*final(parser)) == parser_input(*old(parser)).push(byte),
        parser_actions(parser_input(*final(parser))) == parser_actions(parser_input(*old(parser)))
            + actions_view(r@),
        reads_pieces(parser_input(*final(parser))),
{
    let mut recorder = Recorder { actions: Vec::new() };
    parser.advance(&mut recorder, byte);
    recorder.actions
}

} // verus!

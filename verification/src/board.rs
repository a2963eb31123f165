//! The grid model: a 5x5 matrix of cells, each holding at most one piece and
//! the handle of the sprite that shows it.

use crate::piece::Piece;
use vstd::prelude::*;

verus! {

/// A fully occupied board as a mathematical value: `layout[y][x]` is the piece
/// in column `x` of row `y`.
pub type Layout = Seq<Seq<Piece>>;

/// Whether `(x, y)` names a cell of the board.
pub open spec fn on_board(x: int, y: int) -> bool {
    0 <= x < 5 && 0 <= y < 5
}

/// One cell: the piece it holds, if any, and the handle of its sprite.
#[derive(Copy, Clone, Debug, PartialEq, Eq, Structural, Hash)]
pub struct PieceState {
    pub piece: Option<Piece>,
    pub entity: u64,
}

/// The whole board, row-major, plus the handle of the spare sprite that shows
/// the piece leaving the board during a slide.
#[derive(Copy, Clone, Debug, PartialEq, Eq)]
pub struct BoardState {
    pub piece_state: [[PieceState; 5]; 5],
    pub extra_entity: u64,
}

impl View for BoardState {
    type V = Seq<Seq<Option<Piece>>>;

    /// The pieces alone, row by row: `self@[y][x]`.
    open spec fn view(&self) -> Seq<Seq<Option<Piece>>> {
        Seq::new(5, |y: int| Seq::new(5, |x: int| self.cell(x, y)))
    }
}

impl BoardState {
    /// The content of the cell in column `x` of row `y`.
    pub open spec fn cell(self, x: int, y: int) -> Option<Piece> {
        self.piece_state[y][x].piece
    }

    /// The sprite handle of the cell in column `x` of row `y`.
    pub open spec fn entity(self, x: int, y: int) -> u64 {
        self.piece_state[y][x].entity
    }

    /// Every cell holds a piece.
    pub open spec fn full(self) -> bool {
        forall|x: int, y: int| on_board(x, y) ==> (#[trigger] self.cell(x, y)) is Some
    }

    /// No cell holds a piece.
    pub open spec fn vacant(self) -> bool {
        forall|x: int, y: int| on_board(x, y) ==> (#[trigger] self.cell(x, y)) is None
    }

    /// The pieces of a full board.
    pub open spec fn layout(self) -> Layout {
        Seq::new(5, |y: int| Seq::new(5, |x: int| self.cell(x, y).unwrap()))
    }

    /// Both boards use the same sprite handles, cell by cell and for the spare.
    pub open spec fn same_entities(self, other: BoardState) -> bool {
        &&& self.extra_entity == other.extra_entity
        &&& forall|x: int, y: int| on_board(x, y) ==> #[trigger] self.entity(x, y) == other.entity(x, y)
    }

    /// A board with no pieces whose cells use the given sprite handles.
    pub fn empty(entities: [[u64; 5]; 5], extra_entity: u64) -> (board: BoardState)
        ensures
            board.vacant(),
            board.extra_entity == extra_entity,
            forall|x: int, y: int| on_board(x, y) ==> #[trigger] board.entity(x, y) == entities[y][x],
    {
        let mut piece_state = [[PieceState { piece: None, entity: 0 }; 5]; 5];
        for y in 0..5usize
            invariant
                forall|i: int, j: int| on_board(i, j) ==> (#[trigger] piece_state[j][i]).piece is None,
                forall|i: int, j: int| on_board(i, j) && j < y ==> (#[trigger] piece_state[j][i]).entity == entities[j][i],
        {
            for x in 0..5usize
                invariant
                    y < 5,
                    forall|i: int, j: int| on_board(i, j) ==> (#[trigger] piece_state[j][i]).piece is None,
                    forall|i: int, j: int| on_board(i, j) && (j < y || (j == y && i < x)) ==> (#[trigger] piece_state[j][i]).entity == entities[j][i],
            {
                piece_state[y][x].entity = entities[y][x];
            }
        }
        BoardState { piece_state, extra_entity }
    }

    /// The content of the cell in column `x` of row `y`.
    pub fn get(&self, x: usize, y: usize) -> (piece: Option<Piece>)
        requires
            on_board(x as int, y as int),
        ensures
            piece == self.cell(x as int, y as int),
            piece == self@[y as int][x as int],
    {
        self.piece_state[y][x].piece
    }

    /// Puts `piece` into the cell in column `x` of row `y`; nothing else changes.
    pub fn set(&mut self, x: usize, y: usize, piece: Piece)
        requires
            on_board(x as int, y as int),
        ensures
            final(self).cell(x as int, y as int) == Some(piece),
            forall|i: int, j: int| on_board(i, j) && !(i == x && j == y) ==> #[trigger] final(self).cell(i, j) == old(self).cell(i, j),
            final(self).same_entities(*old(self)),
            final(self)@ == old(self)@.update(
                y as int,
                old(self)@[y as int].update(x as int, Some(piece)),
            ),
    {
        self.put(x, y, Some(piece));
        assert(self@ =~~= old(self)@.update(
            y as int,
            old(self)@[y as int].update(x as int, Some(piece)),
        ));
    }

    /// Overwrites the content of one cell, with a piece or with nothing.
    pub(crate) fn put(&mut self, x: usize, y: usize, content: Option<Piece>)
        requires
            on_board(x as int, y as int),
        ensures
            final(self).cell(x as int, y as int) == content,
            forall|i: int, j: int| on_board(i, j) && !(i == x && j == y) ==> #[trigger] final(self).cell(i, j) == old(self).cell(i, j),
            final(self).same_entities(*old(self)),
    {
        self.piece_state[y][x].piece = content;
    }

    /// Whether every cell holds a piece.
    pub fn is_full(&self) -> (full: bool)
        ensures
            full == self.full(),
    {
        !self.has_empty()
    }

    /// Whether some cell holds no piece.
    pub fn has_empty(&self) -> (some_empty: bool)
        ensures
            some_empty == !self.full(),
    {
        for y in 0..5usize
            invariant
                forall|i: int, j: int| on_board(i, j) && j < y ==> (#[trigger] self.cell(i, j)) is Some,
        {
            for x in 0..5usize
                invariant
                    y < 5,
                    forall|i: int, j: int| on_board(i, j) && (j < y || (j == y && i < x)) ==> (#[trigger] self.cell(i, j)) is Some,
            {
                if self.piece_state[y][x].piece.is_none() {
                    assert(self.cell(x as int, y as int) is None);
                    return true;
                }
            }
        }
        false
    }

    /// Empties every cell; the sprite handles stay.
    pub fn clear_all(&mut self)
        ensures
            final(self).vacant(),
            final(self).same_entities(*old(self)),
    {
        for y in 0..5usize
            invariant
                self.same_entities(*old(self)),
                forall|i: int, j: int| on_board(i, j) && j < y ==> (#[trigger] self.cell(i, j)) is None,
        {
            for x in 0..5usize
                invariant
                    y < 5,
                    self.same_entities(*old(self)),
                    forall|i: int, j: int| on_board(i, j) && (j < y || (j == y && i < x)) ==> (#[trigger] self.cell(i, j)) is None,
            {
                self.put(x, y, None);
            }
        }
    }
}

} // verus!

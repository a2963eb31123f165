//! The board filler: giving every empty cell a random piece such that the
//! full board starts without a clear.
//!
//! Pieces are drawn for the empty cells and the drawing is thrown away as
//! long as the completed board has a uniform row or column. Occupied cells
//! are never touched.

use crate::board::{on_board, BoardState, Layout};
use crate::clears::{board_has_clear, column_uniform, has_clear, layout_of, row_uniform};
use crate::piece::Piece;
use rand::seq::SliceRandom;
use vstd::prelude::*;

verus! {

/// The thread-local random number generator of the `rand` crate. Nothing is
/// known of its state.
#[verifier::external_type_specification]
#[verifier::external_body]
pub struct ExThreadRng(rand::rngs::ThreadRng);

/// `rand::thread_rng` hands out the generator of the current thread.
/// Nothing is claimed of it. It panics when the operating system cannot
/// seed the generator.
pub assume_specification[ rand::thread_rng ]() -> (rng: rand::rngs::ThreadRng)
;

/// `SliceRandom::choose` on a slice of pieces: one of its items, picked at
/// random, or nothing when the slice is empty. Which item comes back is not
/// stated, only that it stands somewhere in the slice. The draw panics when
/// the generator is due for reseeding and the operating system gives it no
/// entropy.
#[verifier::external_body]
fn choose_piece(pieces: &[Piece], rng: &mut rand::rngs::ThreadRng) -> (chosen: Option<Piece>)
    ensures
        chosen is Some <==> pieces@.len() > 0,
        chosen is Some ==> pieces@.contains(chosen.unwrap()),
{
    pieces.choose(rng).copied()
}

/// The command to show `piece` on the sprite with handle `entity`.
#[derive(Copy, Clone, Debug, PartialEq, Eq, Structural, Hash)]
pub struct SpriteUpdate {
    pub entity: u64,
    pub piece: Piece,
}

/// How a call of the board filler ended.
#[derive(Debug, PartialEq, Eq)]
pub enum FillOutcome {
    /// The board had no empty cell, so nothing was drawn.
    AlreadyFull,
    /// Every empty cell was filled. The updates name the filled cells'
    /// sprites and their new pieces, row by row.
    Filled(Vec<SpriteUpdate>),
    /// Every attempt that was allowed produced a clear. The board is as it was.
    GaveUp,
}

impl BoardState {
    /// The full board that results from putting `draws[y][x]` into every
    /// empty cell `(x, y)`.
    pub open spec fn completed(self, draws: Layout) -> Layout {
        Seq::new(
            5,
            |y: int|
                Seq::new(
                    5,
                    |x: int|
                        match self.cell(x, y) {
                            Some(piece) => piece,
                            None => draws[y][x],
                        },
                ),
        )
    }

    /// However the empty cells are filled, the full board has no clear.
    pub open spec fn never_clears(self) -> bool {
        forall|draws: Layout| !has_clear(#[trigger] self.completed(draws))
    }

    /// However the empty cells are filled, the full board has a clear.
    pub open spec fn always_clears(self) -> bool {
        forall|draws: Layout| has_clear(#[trigger] self.completed(draws))
    }

    /// Row `y` holds two pieces that differ.
    pub open spec fn row_broken(self, y: int) -> bool {
        exists|a: int, b: int|
            0 <= a < 5 && 0 <= b < 5 && (#[trigger] self.cell(a, y)) is Some && (#[trigger] self.cell(
                b,
                y,
            )) is Some && self.cell(a, y) != self.cell(b, y)
    }

    /// Column `x` holds two pieces that differ.
    pub open spec fn column_broken(self, x: int) -> bool {
        exists|a: int, b: int|
            0 <= a < 5 && 0 <= b < 5 && (#[trigger] self.cell(x, a)) is Some && (#[trigger] self.cell(
                x,
                b,
            )) is Some && self.cell(x, a) != self.cell(x, b)
    }

    /// The sprite updates for filling the empty cells among the first
    /// `cells` cells, counted row by row, from `draws`.
    pub open spec fn fill_updates(self, draws: Layout, cells: nat) -> Seq<SpriteUpdate>
        decreases cells,
    {
        if cells == 0 {
            Seq::empty()
        } else {
            let x = (cells - 1) % 5;
            let y = (cells - 1) / 5;
            let earlier = self.fill_updates(draws, (cells - 1) as nat);
            if self.cell(x, y) is None {
                earlier.push(SpriteUpdate { entity: self.entity(x, y), piece: draws[y][x] })
            } else {
                earlier
            }
        }
    }

    /// The board's pieces with `draws[y][x]` standing in for every empty
    /// cell `(x, y)`.
    pub fn complete(&self, draws: &[[Piece; 5]; 5]) -> (filled: [[Piece; 5]; 5])
        ensures
            layout_of(filled) == self.completed(layout_of(*draws)),
    {
        let mut filled = *draws;
        for y in 0..5usize
            invariant
                forall|i: int, j: int|
                    on_board(i, j) ==> (#[trigger] filled[j][i]) == (if j < y {
                        self.completed(layout_of(*draws))[j][i]
                    } else {
                        draws[j][i]
                    }),
        {
            for x in 0..5usize
                invariant
                    y < 5,
                    forall|i: int, j: int|
                        on_board(i, j) ==> (#[trigger] filled[j][i]) == (if j < y || (j == y && i
                            < x) {
                            self.completed(layout_of(*draws))[j][i]
                        } else {
                            draws[j][i]
                        }),
            {
                if let Some(piece) = self.piece_state[y][x].piece {
                    filled[y][x] = piece;
                }
            }
        }
        assert(layout_of(filled) =~~= self.completed(layout_of(*draws)));
        filled
    }

    /// Puts `filled[y][x]` into every empty cell `(x, y)` and returns the
    /// sprite updates for those cells.
    pub fn fill_from(&mut self, filled: &[[Piece; 5]; 5]) -> (updates: Vec<SpriteUpdate>)
        ensures
            final(self).full(),
            final(self).layout() == old(self).completed(layout_of(*filled)),
            final(self).same_entities(*old(self)),
            updates@ == old(self).fill_updates(layout_of(*filled), 25),
    {
        let ghost draws = layout_of(*filled);
        let mut updates: Vec<SpriteUpdate> = Vec::new();
        for y in 0..5usize
            invariant
                draws == layout_of(*filled),
                self.same_entities(*old(self)),
                updates@ == old(self).fill_updates(draws, (5 * y) as nat),
                forall|i: int, j: int|
                    on_board(i, j) ==> (#[trigger] self.cell(i, j)) == (if j < y {
                        Some(old(self).completed(draws)[j][i])
                    } else {
                        old(self).cell(i, j)
                    }),
        {
            for x in 0..5usize
                invariant
                    y < 5,
                    draws == layout_of(*filled),
                    self.same_entities(*old(self)),
                    updates@ == old(self).fill_updates(draws, (5 * y + x) as nat),
                    forall|i: int, j: int|
                        on_board(i, j) ==> (#[trigger] self.cell(i, j)) == (if j < y || (j == y
                            && i < x) {
                            Some(old(self).completed(draws)[j][i])
                        } else {
                            old(self).cell(i, j)
                        }),
            {
                let ghost cells = (5 * y + x + 1) as nat;
                assert(self.cell(x as int, y as int) == old(self).cell(x as int, y as int));
                assert((cells - 1) % 5 == x && (cells - 1) / 5 == y);
                if self.piece_state[y][x].piece.is_none() {
                    let piece = filled[y][x];
                    self.put(x, y, Some(piece));
                    assert(self.entity(x as int, y as int) == old(self).entity(x as int, y as int));
                    updates.push(SpriteUpdate { entity: self.piece_state[y][x].entity, piece });
                }
                assert(updates@ == old(self).fill_updates(draws, cells));
            }
        }
        assert(self.layout() =~~= old(self).completed(draws));
        updates
    }

    /// Fills the empty cells from `draws` unless that would start the board
    /// with a clear. On success the sprite updates of the filled cells come
    /// back. Otherwise the board stays as it was.
    pub fn try_fill(&mut self, draws: &[[Piece; 5]; 5]) -> (updates: Option<Vec<SpriteUpdate>>)
        ensures
            updates is Some <==> !has_clear(old(self).completed(layout_of(*draws))),
            updates is Some ==> {
                &&& final(self).full()
                &&& final(self).layout() == old(self).completed(layout_of(*draws))
                &&& final(self).same_entities(*old(self))
                &&& updates.unwrap()@ == old(self).fill_updates(layout_of(*draws), 25)
            },
            updates is None ==> *final(self) == *old(self),
    {
        let filled = self.complete(draws);
        if board_has_clear(&filled) {
            None
        } else {
            proof {
                lemma_completed_again(*self, layout_of(*draws));
                lemma_fill_updates_agree(*self, layout_of(filled), layout_of(*draws), 25);
            }
            Some(self.fill_from(&filled))
        }
    }

    /// Draws a random piece for every empty cell. Occupied cells appear in
    /// the drawing with the piece they hold.
    fn draw(&self, rng: &mut rand::rngs::ThreadRng) -> (draws: [[Piece; 5]; 5])
        ensures
            forall|x: int, y: int|
                on_board(x, y) && self.cell(x, y) is Some ==> Some(#[trigger] draws[y][x])
                    == self.cell(x, y),
    {
        let catalog = Piece::all_pieces();
        let mut draws = [[Piece::Mascot; 5]; 5];
        for y in 0..5usize
            invariant
                catalog@.len() == 6,
                forall|i: int, j: int|
                    on_board(i, j) && j < y && self.cell(i, j) is Some ==> Some(
                        #[trigger] draws[j][i],
                    ) == self.cell(i, j),
        {
            for x in 0..5usize
                invariant
                    y < 5,
                    catalog@.len() == 6,
                    forall|i: int, j: int|
                        on_board(i, j) && (j < y || (j == y && i < x)) && self.cell(i, j) is Some
                            ==> Some(#[trigger] draws[j][i]) == self.cell(i, j),
            {
                draws[y][x] =
                match self.piece_state[y][x].piece {
                    Some(piece) => piece,
                    None => choose_piece(catalog.as_slice(), rng).unwrap(),
                };
            }
        }
        draws
    }
}

/// Completing a board from a completed board changes nothing.
proof fn lemma_completed_again(board: BoardState, draws: Layout)
    ensures
        board.completed(board.completed(draws)) == board.completed(draws),
{
    assert(board.completed(board.completed(draws)) =~~= board.completed(draws));
}

/// The sprite updates depend on the draws for the empty cells alone.
proof fn lemma_fill_updates_agree(board: BoardState, first: Layout, second: Layout, cells: nat)
    requires
        cells <= 25,
        forall|x: int, y: int|
            on_board(x, y) && board.cell(x, y) is None ==> #[trigger] first[y][x] == second[y][x],
    ensures
        board.fill_updates(first, cells) == board.fill_updates(second, cells),
    decreases cells,
{
    if cells > 0 {
        lemma_fill_updates_agree(board, first, second, (cells - 1) as nat);
        let x = (cells - 1) % 5;
        let y = (cells - 1) / 5;
        assert(on_board(x, y));
    }
}

/// A board on which every row and every column already holds two pieces
/// that differ cannot be completed to a clear, whatever is drawn.
pub proof fn lemma_broken_lines_never_clear(board: BoardState)
    requires
        forall|y: int| 0 <= y < 5 ==> board.row_broken(y),
        forall|x: int| 0 <= x < 5 ==> board.column_broken(x),
    ensures
        board.never_clears(),
{
    assert forall|draws: Layout| !has_clear(#[trigger] board.completed(draws)) by {
        let layout = board.completed(draws);
        assert forall|y: int| 0 <= y < 5 implies !row_uniform(layout, y) by {
            assert(board.row_broken(y));
            let (a, b) = choose|a: int, b: int|
                0 <= a < 5 && 0 <= b < 5 && (#[trigger] board.cell(a, y)) is Some && (#[trigger] board.cell(
                    b,
                    y,
                )) is Some && board.cell(a, y) != board.cell(b, y);
            assert(layout[y][a] != layout[y][b]);
        }
        assert forall|x: int| 0 <= x < 5 implies !column_uniform(layout, x) by {
            assert(board.column_broken(x));
            let (a, b) = choose|a: int, b: int|
                0 <= a < 5 && 0 <= b < 5 && (#[trigger] board.cell(x, a)) is Some && (#[trigger] board.cell(
                    x,
                    b,
                )) is Some && board.cell(x, a) != board.cell(x, b);
            assert(layout[a][x] != layout[b][x]);
        }
    }
}

/// Fills every empty cell of the board with a random piece such that no row
/// and no column of the full board is uniform. A drawing that produces a
/// clear is thrown away and drawn again, at most `max_attempts` times in
/// all. A board without an empty cell is left alone.
///
/// Where the draws cannot matter the outcome is fixed: a board that no
/// filling can bring to a clear is filled by the first attempt, and a board
/// that every filling brings to a clear is given up.
pub fn randomly_fill_board(board_state: &mut BoardState, max_attempts: u64) -> (outcome: FillOutcome)
    ensures
        final(board_state).same_entities(*old(board_state)),
        forall|x: int, y: int|
            on_board(x, y) && old(board_state).cell(x, y) is Some
                ==> #[trigger] final(board_state).cell(x, y) == old(board_state).cell(x, y),
        old(board_state).full() <==> outcome is AlreadyFull,
        !old(board_state).full() && max_attempts == 0 ==> outcome is GaveUp,
        !old(board_state).full() && max_attempts > 0 && old(board_state).never_clears()
            ==> outcome is Filled,
        !old(board_state).full() && old(board_state).always_clears() ==> outcome is GaveUp,
        match outcome {
            FillOutcome::AlreadyFull => *final(board_state) == *old(board_state),
            FillOutcome::Filled(updates) => {
                &&& final(board_state).full()
                &&& !has_clear(final(board_state).layout())
                &&& updates@ == old(board_state).fill_updates(final(board_state).layout(), 25)
            },
            FillOutcome::GaveUp => *final(board_state) == *old(board_state),
        },
{
    if !board_state.has_empty() {
        return FillOutcome::AlreadyFull;
    }
    let mut rng = rand::thread_rng();
    let mut attempts_left = max_attempts;
    while attempts_left > 0
        invariant
            *board_state == *old(board_state),
            !board_state.full(),
            attempts_left <= max_attempts,
            max_attempts > 0 && old(board_state).never_clears() ==> attempts_left > 0,
        decreases attempts_left,
    {
        let draws = board_state.draw(&mut rng);
        if let Some(updates) = board_state.try_fill(&draws) {
            proof {
                let completed = old(board_state).completed(layout_of(draws));
                lemma_fill_updates_agree(*old(board_state), layout_of(draws), completed, 25);
                assert forall|x: int, y: int|
                    on_board(x, y) && old(board_state).cell(x, y) is Some
                    implies #[trigger] board_state.cell(x, y) == old(board_state).cell(x, y) by {
                    assert(board_state.layout()[y][x] == completed[y][x]);
                }
            }
            return FillOutcome::Filled(updates);
        }
        attempts_left = attempts_left - 1;
    }
    FillOutcome::GaveUp
}

} // verus!

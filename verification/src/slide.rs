//! The slide engine: rotating the row or column under the cursor by one cell.
//!
//! A slide moves every piece of the selected line one cell in the direction
//! of travel. The piece at the far end leaves the board there and comes back
//! in at the near end, so the line is rotated and no cell is left empty.

use crate::board::{on_board, BoardState};
use crate::cursor::{BoardLocation, Direction};
use crate::piece::Piece;
use vstd::prelude::*;

verus! {

/// What one sprite does during a slide: it shows `piece` and travels from
/// `(from_x, from_y)` to `(to_x, to_y)`, in cell units. A position with a
/// coordinate of `-1` or `5` lies just outside the board.
#[derive(Copy, Clone, Debug, PartialEq, Eq, Structural, Hash)]
pub struct PieceMove {
    pub entity: u64,
    pub piece: Piece,
    pub from_x: i8,
    pub from_y: i8,
    pub to_x: i8,
    pub to_y: i8,
}

/// The visual side of a committed slide: one move for each cell of the line,
/// in index order, and the move of the spare sprite that shows the piece
/// leaving the board.
#[derive(Copy, Clone, Debug, PartialEq, Eq)]
pub struct SlideOutcome {
    pub moves: [PieceMove; 5],
    pub extra: PieceMove,
}

/// The `i`-th cell of the line that a slide in `direction` acts on: the
/// cursor's column for a vertical direction, its row for a horizontal one.
pub open spec fn line_cell(cursor: (int, int), direction: Direction, i: int) -> (int, int) {
    if direction.vertical() {
        (cursor.0, i)
    } else {
        (i, cursor.1)
    }
}

/// Whether the cell `(x, y)` lies on the line that a slide in `direction` acts on.
pub open spec fn on_line(cursor: (int, int), direction: Direction, x: int, y: int) -> bool {
    if direction.vertical() {
        x == cursor.0
    } else {
        y == cursor.1
    }
}

/// The index along the line at which pieces leave the board.
pub open spec fn exit_index(direction: Direction) -> int {
    match direction {
        Direction::Up | Direction::Right => 4,
        Direction::Down | Direction::Left => 0,
    }
}

/// The index along the line at which the leaving piece comes back in.
pub open spec fn entry_index(direction: Direction) -> int {
    match direction {
        Direction::Up | Direction::Right => 0,
        Direction::Down | Direction::Left => 4,
    }
}

/// The index along the line whose piece arrives at index `i`.
pub open spec fn upstream(direction: Direction, i: int) -> int {
    match direction {
        Direction::Up | Direction::Right => (i + 4) % 5,
        Direction::Down | Direction::Left => (i + 1) % 5,
    }
}

/// The content of the cell `(x, y)` after a slide in `direction` with the
/// cursor at `cursor`.
pub open spec fn slid_cell(
    board: BoardState,
    cursor: (int, int),
    direction: Direction,
    x: int,
    y: int,
) -> Option<Piece> {
    if on_line(cursor, direction, x, y) {
        let i = if direction.vertical() { y } else { x };
        let (from_x, from_y) = line_cell(cursor, direction, upstream(direction, i));
        board.cell(from_x, from_y)
    } else {
        board.cell(x, y)
    }
}

/// The piece that a slide pushes off the board.
pub open spec fn ejected(board: BoardState, cursor: (int, int), direction: Direction) -> Piece {
    let (x, y) = line_cell(cursor, direction, exit_index(direction));
    board.cell(x, y).unwrap()
}

/// The move of the sprite at index `i` of the line: it takes over the piece
/// that arrives in its cell and travels one step to get there.
pub open spec fn arriving_move(
    board: BoardState,
    cursor: (int, int),
    direction: Direction,
    i: int,
) -> PieceMove {
    let (x, y) = line_cell(cursor, direction, i);
    let (dx, dy) = direction.step();
    PieceMove {
        entity: board.entity(x, y),
        piece: slid_cell(board, cursor, direction, x, y).unwrap(),
        from_x: (x - dx) as i8,
        from_y: (y - dy) as i8,
        to_x: x as i8,
        to_y: y as i8,
    }
}

/// The move of the spare sprite: it shows the ejected piece travelling from
/// the last cell of the line to the position one step beyond it.
pub open spec fn leaving_move(board: BoardState, cursor: (int, int), direction: Direction) -> PieceMove {
    let (x, y) = line_cell(cursor, direction, exit_index(direction));
    let (dx, dy) = direction.step();
    PieceMove {
        entity: board.extra_entity,
        piece: ejected(board, cursor, direction),
        from_x: x as i8,
        from_y: y as i8,
        to_x: (x + dx) as i8,
        to_y: (y + dy) as i8,
    }
}

/// What a slide of the line under `cursor` in `direction` makes of the board
/// `before`: every cell of `after` holds what `slid_cell` says, the sprite
/// handles stay, and `outcome` holds the moves of the five sprites of the
/// line and of the spare sprite.
pub open spec fn slide_commits(
    before: BoardState,
    after: BoardState,
    cursor: (int, int),
    direction: Direction,
    outcome: SlideOutcome,
) -> bool {
    &&& after.full()
    &&& after.same_entities(before)
    &&& forall|x: int, y: int|
        on_board(x, y) ==> #[trigger] after.cell(x, y) == slid_cell(before, cursor, direction, x, y)
    &&& forall|i: int|
        0 <= i < 5 ==> #[trigger] outcome.moves[i] == arriving_move(before, cursor, direction, i)
    &&& outcome.extra == leaving_move(before, cursor, direction)
}

/// The cells of the line through `cursor` along `direction`, as `(x, y)` in
/// index order.
pub fn line_indices(cursor: &BoardLocation, direction: Direction) -> (indices: [(usize, usize); 5])
    ensures
        cursor.wf(),
        forall|i: int|
            0 <= i < 5 ==> {
                &&& (#[trigger] indices[i]).0 == line_cell(cursor@, direction, i).0
                &&& indices[i].1 == line_cell(cursor@, direction, i).1
                &&& on_board(indices[i].0 as int, indices[i].1 as int)
            },
{
    if direction.is_vertical() {
        let idx = cursor.x() as usize;
        [(idx, 0), (idx, 1), (idx, 2), (idx, 3), (idx, 4)]
    } else {
        let idx = cursor.y() as usize;
        [(0, idx), (1, idx), (2, idx), (3, idx), (4, idx)]
    }
}

/// The pieces of a line after a slide in `direction`: each index holds the
/// piece of its upstream neighbour, and the entry index holds the piece that
/// left at the exit.
pub fn rotate_line(line: &[Piece; 5], direction: Direction) -> (rotated: [Piece; 5])
    ensures
        forall|i: int| 0 <= i < 5 ==> #[trigger] rotated[i] == line[upstream(direction, i)],
{
    match direction {
        Direction::Up | Direction::Right => [line[4], line[0], line[1], line[2], line[3]],
        Direction::Down | Direction::Left => [line[1], line[2], line[3], line[4], line[0]],
    }
}

impl BoardState {
    /// Commits a slide of the line under `cursor` in `direction` and returns
    /// the moves that show it.
    pub fn slide(&mut self, cursor: &BoardLocation, direction: Direction) -> (outcome: SlideOutcome)
        requires
            old(self).full(),
        ensures
            slide_commits(*old(self), *final(self), cursor@, direction, outcome),
    {
        let indices = line_indices(cursor, direction);
        let (dx, dy) = direction.offset();

        let mut line = [Piece::Mascot; 5];
        for i in 0..5usize
            invariant
                self == old(self),
                self.full(),
                forall|k: int|
                    0 <= k < 5 ==> {
                        &&& (#[trigger] indices[k]).0 == line_cell(cursor@, direction, k).0
                        &&& indices[k].1 == line_cell(cursor@, direction, k).1
                        &&& on_board(indices[k].0 as int, indices[k].1 as int)
                    },
                forall|k: int|
                    0 <= k < i ==> Some(#[trigger] line[k]) == self.cell(
                        line_cell(cursor@, direction, k).0,
                        line_cell(cursor@, direction, k).1,
                    ),
        {
            let (x, y) = indices[i];
            assert(self.cell(x as int, y as int) is Some);
            line[i] = self.piece_state[y][x].piece.unwrap();
        }
        let rotated = rotate_line(&line, direction);

        let exit: usize = match direction {
            Direction::Up | Direction::Right => 4,
            Direction::Down | Direction::Left => 0,
        };
        let (exit_x, exit_y) = indices[exit];
        let extra = PieceMove {
            entity: self.extra_entity,
            piece: line[exit],
            from_x: exit_x as i8,
            from_y: exit_y as i8,
            to_x: exit_x as i8 + dx,
            to_y: exit_y as i8 + dy,
        };

        let mut moves = [extra; 5];
        for i in 0..5usize
            invariant
                self.same_entities(*old(self)),
                old(self).full(),
                dx == direction.step().0,
                dy == direction.step().1,
                cursor.wf(),
                forall|k: int|
                    0 <= k < 5 ==> {
                        &&& (#[trigger] indices[k]).0 == line_cell(cursor@, direction, k).0
                        &&& indices[k].1 == line_cell(cursor@, direction, k).1
                        &&& on_board(indices[k].0 as int, indices[k].1 as int)
                    },
                forall|k: int|
                    0 <= k < 5 ==> Some(#[trigger] line[k]) == old(self).cell(
                        line_cell(cursor@, direction, k).0,
                        line_cell(cursor@, direction, k).1,
                    ),
                forall|k: int| 0 <= k < 5 ==> #[trigger] rotated[k] == line[upstream(direction, k)],
                forall|x: int, y: int|
                    on_board(x, y) ==> #[trigger] self.cell(x, y) == (if on_line(cursor@, direction, x, y)
                        && (if direction.vertical() { y } else { x }) < i {
                        slid_cell(*old(self), cursor@, direction, x, y)
                    } else {
                        old(self).cell(x, y)
                    }),
                forall|k: int|
                    0 <= k < i ==> #[trigger] moves[k] == arriving_move(
                        *old(self),
                        cursor@,
                        direction,
                        k,
                    ),
        {
            let (x, y) = indices[i];
            let piece = rotated[i];
            assert(0 <= upstream(direction, i as int) < 5);
            assert(Some(line[upstream(direction, i as int)]) == old(self).cell(
                line_cell(cursor@, direction, upstream(direction, i as int)).0,
                line_cell(cursor@, direction, upstream(direction, i as int)).1,
            ));
            self.put(x, y, Some(piece));
            assert(self.entity(x as int, y as int) == old(self).entity(x as int, y as int));
            moves[i] = PieceMove {
                entity: self.piece_state[y][x].entity,
                piece,
                from_x: x as i8 - dx,
                from_y: y as i8 - dy,
                to_x: x as i8,
                to_y: y as i8,
            };
        }
        SlideOutcome { moves, extra }
    }
}

/// Every cell of the line but the entry takes the piece of the neighbour one
/// step against the direction of travel: four pieces move by exactly one
/// cell. The entry cell takes the piece that left at the exit, the one
/// ejected piece of the slide. Cells off the line keep their content.
pub proof fn lemma_slide_rotates(board: BoardState, cursor: (int, int), direction: Direction, i: int)
    requires
        on_board(cursor.0, cursor.1),
        0 <= i < 5,
    ensures
        ({
            let (x, y) = line_cell(cursor, direction, i);
            let (dx, dy) = direction.step();
            let (exit_x, exit_y) = line_cell(cursor, direction, exit_index(direction));
            &&& on_board(x, y) && on_line(cursor, direction, x, y)
            &&& i != entry_index(direction) ==> on_board(x - dx, y - dy) && slid_cell(
                board,
                cursor,
                direction,
                x,
                y,
            ) == board.cell(x - dx, y - dy)
            &&& i == entry_index(direction) ==> slid_cell(board, cursor, direction, x, y) == board.cell(
                exit_x,
                exit_y,
            )
            &&& board.cell(exit_x, exit_y) is Some ==> board.cell(exit_x, exit_y) == Some(
                ejected(board, cursor, direction),
            )
        }),
        forall|x: int, y: int|
            on_board(x, y) && !on_line(cursor, direction, x, y) ==> slid_cell(
                board,
                cursor,
                direction,
                x,
                y,
            ) == board.cell(x, y),
{
}

/// Along a line, the upstream index of the reverse direction is the
/// downstream index: going there and then upstream leads back.
pub proof fn lemma_upstream_reverse(direction: Direction, i: int)
    requires
        0 <= i < 5,
    ensures
        0 <= upstream(direction, i) < 5,
        upstream(direction, upstream(direction.reverse(), i)) == i,
        upstream(direction.reverse(), upstream(direction, i)) == i,
{
}

/// A slide followed by a slide of the same line in the reverse direction
/// puts every piece back where it was.
pub proof fn lemma_slide_reverses(
    before: BoardState,
    between: BoardState,
    after: BoardState,
    cursor: (int, int),
    direction: Direction,
    there: SlideOutcome,
    back: SlideOutcome,
)
    requires
        on_board(cursor.0, cursor.1),
        slide_commits(before, between, cursor, direction, there),
        slide_commits(between, after, cursor, direction.reverse(), back),
    ensures
        after.same_entities(before),
        forall|x: int, y: int| on_board(x, y) ==> #[trigger] after.cell(x, y) == before.cell(x, y),
{
    let reverse = direction.reverse();
    assert forall|x: int, y: int| on_board(x, y) implies #[trigger] after.cell(x, y) == before.cell(
        x,
        y,
    ) by {
        assert(after.cell(x, y) == slid_cell(between, cursor, reverse, x, y));
        if on_line(cursor, direction, x, y) {
            let i = if direction.vertical() { y } else { x };
            let j = upstream(reverse, i);
            lemma_upstream_reverse(reverse, i);
            lemma_upstream_reverse(direction, i);
            let (mid_x, mid_y) = line_cell(cursor, reverse, j);
            assert(on_board(mid_x, mid_y) && on_line(cursor, direction, mid_x, mid_y));
            assert(after.cell(x, y) == between.cell(mid_x, mid_y));
            assert(between.cell(mid_x, mid_y) == slid_cell(before, cursor, direction, mid_x, mid_y));
            assert(line_cell(cursor, direction, upstream(direction, j)) == (x, y));
        } else {
            assert(between.cell(x, y) == slid_cell(before, cursor, direction, x, y));
        }
    }
    assert forall|x: int, y: int| on_board(x, y) implies #[trigger] after.entity(x, y)
        == before.entity(x, y) by {
        assert(between.entity(x, y) == before.entity(x, y));
    }
}

} // verus!

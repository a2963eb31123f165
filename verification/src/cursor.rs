//! Directions of travel and the player's cursor, a position on the board
//! that moves one cell at a time and wraps around the edges.

use crate::board::on_board;
use vstd::prelude::*;

verus! {

/// A direction of travel. `Up` is towards larger `y`, `Right` towards larger `x`.
#[derive(Copy, Clone, Debug, PartialEq, Eq, Structural, Hash)]
pub enum Direction {
    Up,
    Down,
    Left,
    Right,
}

impl Direction {
    /// The displacement `(dx, dy)` of one step in this direction.
    pub open spec fn step(self) -> (int, int) {
        match self {
            Direction::Up => (0, 1),
            Direction::Down => (0, -1),
            Direction::Left => (-1, 0),
            Direction::Right => (1, 0),
        }
    }

    /// The direction that undoes a step in this one.
    pub open spec fn reverse(self) -> Direction {
        match self {
            Direction::Up => Direction::Down,
            Direction::Down => Direction::Up,
            Direction::Left => Direction::Right,
            Direction::Right => Direction::Left,
        }
    }

    /// Whether a step in this direction changes `y` and leaves `x` alone.
    pub open spec fn vertical(self) -> bool {
        self == Direction::Up || self == Direction::Down
    }

    /// The displacement `(dx, dy)` of one step in this direction.
    pub fn offset(self) -> (d: (i8, i8))
        ensures
            d.0 == self.step().0,
            d.1 == self.step().1,
    {
        match self {
            Direction::Up => (0, 1),
            Direction::Down => (0, -1),
            Direction::Left => (-1, 0),
            Direction::Right => (1, 0),
        }
    }

    /// Whether a step in this direction changes `y` and leaves `x` alone.
    pub fn is_vertical(self) -> (vertical: bool)
        ensures
            vertical == self.vertical(),
    {
        match self {
            Direction::Up | Direction::Down => true,
            Direction::Left | Direction::Right => false,
        }
    }
}

/// Where a cursor at `position` stands after one step in `direction`:
/// one cell further, re-entering on the opposite edge when it leaves the board.
pub open spec fn moved(position: (int, int), direction: Direction) -> (int, int) {
    let (x, y) = position;
    match direction {
        Direction::Up => (x, (y + 1) % 5),
        Direction::Down => (x, (y + 4) % 5),
        Direction::Left => ((x + 4) % 5, y),
        Direction::Right => ((x + 1) % 5, y),
    }
}

/// A position on the board: column `x` and row `y`, both in `0..5`.
#[derive(Copy, Clone, Debug, PartialEq, Eq, Structural, Hash)]
pub struct BoardLocation {
    x: u8,
    y: u8,
}

impl View for BoardLocation {
    type V = (int, int);

    /// The position as `(x, y)`.
    closed spec fn view(&self) -> (int, int) {
        (self.x as int, self.y as int)
    }
}

impl BoardLocation {
    #[verifier::type_invariant]
    spec fn in_range(self) -> bool {
        self.x < 5 && self.y < 5
    }

    /// The position names a cell of the board. Every location that running
    /// code holds satisfies this.
    pub open spec fn wf(self) -> bool {
        on_board(self@.0, self@.1)
    }

    /// The location `(x, y)`, if it is on the board.
    pub fn new(x: u8, y: u8) -> (location: Option<BoardLocation>)
        ensures
            location is Some <==> on_board(x as int, y as int),
            location is Some ==> location.unwrap()@ == (x as int, y as int) && location.unwrap().wf(),
    {
        if x < 5 && y < 5 {
            Some(BoardLocation { x, y })
        } else {
            None
        }
    }

    /// The middle of the board, where the cursor starts.
    pub fn center() -> (location: BoardLocation)
        ensures
            location@ == (2int, 2int),
            location.wf(),
    {
        BoardLocation { x: 2, y: 2 }
    }

    /// The column.
    pub fn x(&self) -> (x: u8)
        ensures
            x == self@.0,
            x < 5,
            self.wf(),
    {
        proof {
            use_type_invariant(self);
        }
        self.x
    }

    /// The row.
    pub fn y(&self) -> (y: u8)
        ensures
            y == self@.1,
            y < 5,
            self.wf(),
    {
        proof {
            use_type_invariant(self);
        }
        self.y
    }

    /// Moves the cursor one cell in `direction`, wrapping around the edges,
    /// and returns the new position.
    pub fn move_cursor(&mut self, direction: Direction) -> (position: BoardLocation)
        ensures
            final(self)@ == moved(old(self)@, direction),
            final(self).wf(),
            position == *final(self),
    {
        proof {
            use_type_invariant(&*self);
        }
        match direction {
            Direction::Up => self.y = (self.y + 1) % 5,
            Direction::Down => self.y = (self.y + 4) % 5,
            Direction::Left => self.x = (self.x + 4) % 5,
            Direction::Right => self.x = (self.x + 1) % 5,
        }
        *self
    }
}

/// A step stays on the board: it changes one coordinate by one cell, or
/// jumps from one edge to the opposite one.
pub proof fn lemma_move_wraps(position: (int, int), direction: Direction)
    requires
        on_board(position.0, position.1),
    ensures
        on_board(moved(position, direction).0, moved(position, direction).1),
        ({
            let (dx, dy) = direction.step();
            let target = (position.0 + dx, position.1 + dy);
            let landed = moved(position, direction);
            &&& on_board(target.0, target.1) ==> landed == target
            &&& target.0 == 5 ==> landed == (0int, position.1)
            &&& target.0 == -1 ==> landed == (4int, position.1)
            &&& target.1 == 5 ==> landed == (position.0, 0int)
            &&& target.1 == -1 ==> landed == (position.0, 4int)
        }),
{
}

/// A step followed by a step in the reverse direction leads back.
pub proof fn lemma_move_reverse(position: (int, int), direction: Direction)
    requires
        on_board(position.0, position.1),
    ensures
        moved(moved(position, direction), direction.reverse()) == position,
{
}

/// Five steps in one direction go once around the board.
pub proof fn lemma_move_cycle(position: (int, int), direction: Direction)
    requires
        on_board(position.0, position.1),
    ensures
        moved(moved(moved(moved(moved(position, direction), direction), direction), direction), direction)
            == position,
{
    let p1 = moved(position, direction);
    let p2 = moved(p1, direction);
    let p3 = moved(p2, direction);
    let p4 = moved(p3, direction);
    lemma_move_wraps(position, direction);
    lemma_move_wraps(p1, direction);
    lemma_move_wraps(p2, direction);
    lemma_move_wraps(p3, direction);
    lemma_move_wraps(p4, direction);
}

} // verus!

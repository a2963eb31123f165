//! The closed set of piece kinds and their display indices.

use vstd::prelude::*;

verus! {

/// Number of distinct piece kinds.
pub const PIECE_KINDS: usize = 6;

/// One of the six decorative tile kinds that can occupy a cell.
#[derive(Copy, Clone, Debug, PartialEq, Eq, Structural, Hash)]
pub enum Piece {
    Mascot,
    Checkered,
    Donut,
    Flower,
    Green,
    Heart,
}

impl Piece {
    /// The position of this kind in the catalog, which is also its sprite index.
    pub open spec fn index(self) -> int {
        match self {
            Piece::Mascot => 0,
            Piece::Checkered => 1,
            Piece::Donut => 2,
            Piece::Flower => 3,
            Piece::Green => 4,
            Piece::Heart => 5,
        }
    }

    /// The catalog: every piece kind once, in display order.
    pub open spec fn catalog() -> Seq<Piece> {
        seq![
            Piece::Mascot,
            Piece::Checkered,
            Piece::Donut,
            Piece::Flower,
            Piece::Green,
            Piece::Heart,
        ]
    }

    /// All piece kinds, in display order.
    pub fn all_pieces() -> (pieces: [Piece; 6])
        ensures
            pieces@ == Piece::catalog(),
    {
        [
            Piece::Mascot,
            Piece::Checkered,
            Piece::Donut,
            Piece::Flower,
            Piece::Green,
            Piece::Heart,
        ]
    }

    /// The index of this piece's image in the sprite sheet.
    pub fn texture_index(self) -> (index: usize)
        ensures
            index == self.index(),
            index < PIECE_KINDS,
    {
        match self {
            Piece::Mascot => 0,
            Piece::Checkered => 1,
            Piece::Donut => 2,
            Piece::Flower => 3,
            Piece::Green => 4,
            Piece::Heart => 5,
        }
    }
}

/// Every piece kind stands in the catalog at its own index, so the display
/// index determines the kind.
pub proof fn lemma_catalog_indexed(p: Piece)
    ensures
        Piece::catalog().len() == PIECE_KINDS,
        0 <= p.index() < PIECE_KINDS,
        Piece::catalog()[p.index()] == p,
{
}

} // verus!

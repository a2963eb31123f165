//! The match detector: which rows and columns of a full board are clears.
//!
//! Two questions are answered here. The static check asks whether any row
//! or column holds five equal pieces. The cascading count claims uniform
//! lines pass by pass: a claimed line is left out of later comparisons, so
//! claiming a row can make a column uniform among the rows that remain.

use crate::board::{BoardState, Layout};
use crate::piece::Piece;
use vstd::prelude::*;

verus! {

/// Row `y` holds five equal pieces.
pub open spec fn row_uniform(layout: Layout, y: int) -> bool {
    forall|x: int| 0 <= x < 5 ==> #[trigger] layout[y][x] == layout[y][0]
}

/// Column `x` holds five equal pieces.
pub open spec fn column_uniform(layout: Layout, x: int) -> bool {
    forall|y: int| 0 <= y < 5 ==> #[trigger] layout[y][x] == layout[0][x]
}

/// Some row or some column holds five equal pieces.
pub open spec fn has_clear(layout: Layout) -> bool {
    ||| exists|y: int| 0 <= y < 5 && row_uniform(layout, y)
    ||| exists|x: int| 0 <= x < 5 && column_uniform(layout, x)
}

/// The pieces of a board given as an array of rows.
pub open spec fn layout_of(board: [[Piece; 5]; 5]) -> Layout {
    Seq::new(5, |y: int| Seq::new(5, |x: int| board[y][x]))
}

/// Whether all items are the same piece. True of an empty slice.
pub fn all_equal(items: &[Piece]) -> (equal: bool)
    ensures
        equal <==> forall|i: int, j: int|
            0 <= i < items@.len() && 0 <= j < items@.len() ==> items@[i] == items@[j],
{
    if items.len() == 0 {
        return true;
    }
    let first = items[0];
    for k in 1..items.len()
        invariant
            items@.len() > 0,
            first == items@[0],
            forall|i: int| 0 <= i < k ==> items@[i] == first,
    {
        if items[k] != first {
            return false;
        }
    }
    true
}

/// The static check: whether some row or column of `board` is uniform.
pub fn board_has_clear(board: &[[Piece; 5]; 5]) -> (clear: bool)
    ensures
        clear == has_clear(layout_of(*board)),
{
    let ghost layout = layout_of(*board);
    for y in 0..5usize
        invariant
            layout == layout_of(*board),
            forall|j: int| 0 <= j < y ==> !row_uniform(layout, j),
    {
        let row = &board[y];
        if all_equal(row.as_slice()) {
            assert(row_uniform(layout, y as int));
            return true;
        }
        assert(!row_uniform(layout, y as int)) by {
            if row_uniform(layout, y as int) {
                assert forall|i: int, j: int| 0 <= i < 5 && 0 <= j < 5 implies row@[i] == row@[j] by {
                    assert(layout[y as int][i] == layout[y as int][0]);
                    assert(layout[y as int][j] == layout[y as int][0]);
                }
            }
        }
    }
    for x in 0..5usize
        invariant
            layout == layout_of(*board),
            forall|j: int| 0 <= j < 5 ==> !row_uniform(layout, j),
            forall|i: int| 0 <= i < x ==> !column_uniform(layout, i),
    {
        let column = [board[0][x], board[1][x], board[2][x], board[3][x], board[4][x]];
        if all_equal(column.as_slice()) {
            assert forall|j: int| 0 <= j < 5 implies #[trigger] layout[j][x as int] == layout[0][x as int] by {
                assert(column@[j] == column@[0]);
            }
            assert(column_uniform(layout, x as int));
            return true;
        }
        assert(!column_uniform(layout, x as int)) by {
            if column_uniform(layout, x as int) {
                assert forall|i: int, j: int| 0 <= i < 5 && 0 <= j < 5 implies column@[i] == column@[j] by {
                    assert(layout[i][x as int] == layout[0][x as int]);
                    assert(layout[j][x as int] == layout[0][x as int]);
                }
            }
        }
    }
    false
}

/// The lines claimed so far in a cascading count: `rows[y]` and
/// `columns[x]` tell whether row `y` and column `x` are claimed.
pub struct Claims {
    pub rows: Seq<bool>,
    pub columns: Seq<bool>,
}

/// How many of the five flags are set.
pub open spec fn tally(flags: Seq<bool>) -> nat {
    let one = |flag: bool| if flag { 1nat } else { 0nat };
    one(flags[0]) + one(flags[1]) + one(flags[2]) + one(flags[3]) + one(flags[4])
}

/// Whether all five flags are set.
pub open spec fn all_set(flags: Seq<bool>) -> bool {
    flags[0] && flags[1] && flags[2] && flags[3] && flags[4]
}

/// Row `y` is uniform among the columns that are not skipped.
pub open spec fn row_uniform_among(layout: Layout, y: int, skipped: Seq<bool>) -> bool {
    forall|a: int, b: int|
        #![trigger layout[y][a], layout[y][b]]
        0 <= a < 5 && 0 <= b < 5 && !skipped[a] && !skipped[b] ==> layout[y][a] == layout[y][b]
}

/// Column `x` is uniform among the rows that are not skipped.
pub open spec fn column_uniform_among(layout: Layout, x: int, skipped: Seq<bool>) -> bool {
    forall|a: int, b: int|
        #![trigger layout[a][x], layout[b][x]]
        0 <= a < 5 && 0 <= b < 5 && !skipped[a] && !skipped[b] ==> layout[a][x] == layout[b][x]
}

impl Claims {
    /// No line is claimed.
    pub open spec fn none() -> Claims {
        Claims { rows: Seq::new(5, |y: int| false), columns: Seq::new(5, |x: int| false) }
    }

    /// The number of claimed lines.
    pub open spec fn count(self) -> nat {
        tally(self.rows) + tally(self.columns)
    }

    /// The claims after one pass over `layout`. A row is claimed when it is
    /// uniform among the columns that were unclaimed before the pass, a
    /// column when it is uniform among the rows that were unclaimed before
    /// the pass. Claims are never given up.
    pub open spec fn pass(self, layout: Layout) -> Claims {
        Claims {
            rows: Seq::new(5, |y: int| self.rows[y] || row_uniform_among(layout, y, self.columns)),
            columns: Seq::new(
                5,
                |x: int| self.columns[x] || column_uniform_among(layout, x, self.rows),
            ),
        }
    }

    /// Whether the count stops after a pass that led from `self` to `next`:
    /// the pass claimed nothing, or all rows or all columns are claimed.
    pub open spec fn settled(self, next: Claims) -> bool {
        next.count() == self.count() || all_set(next.rows) || all_set(next.columns)
    }

    /// The claims when the count stops: passes are repeated, at least one,
    /// until one settles.
    pub open spec fn cascade(self, layout: Layout) -> Claims
        decreases 10 - self.count(),
    {
        let next = self.pass(layout);
        if self.settled(next) {
            next
        } else {
            next.cascade(layout)
        }
    }
}

/// The cascading count of `layout`: the number of rows and columns claimed
/// when the passes stop.
pub open spec fn clear_count(layout: Layout) -> nat {
    Claims::none().cascade(layout).count()
}

/// How many of the five flags are set.
fn tally_flags(flags: &[bool; 5]) -> (count: u8)
    ensures
        count == tally(flags@),
        count <= 5,
{
    let mut count: u8 = 0;
    if flags[0] {
        count = count + 1;
    }
    if flags[1] {
        count = count + 1;
    }
    if flags[2] {
        count = count + 1;
    }
    if flags[3] {
        count = count + 1;
    }
    if flags[4] {
        count = count + 1;
    }
    count
}

/// Whether all five flags are set.
fn all_flags(flags: &[bool; 5]) -> (all: bool)
    ensures
        all == all_set(flags@),
{
    flags[0] && flags[1] && flags[2] && flags[3] && flags[4]
}

impl BoardState {
    /// Whether row `y` is uniform among the columns that are not skipped.
    fn row_clears(&self, y: usize, skipped: &[bool; 5]) -> (uniform: bool)
        requires
            self.full(),
            y < 5,
        ensures
            uniform == row_uniform_among(self.layout(), y as int, skipped@),
    {
        let ghost layout = self.layout();
        let ghost mut seen: int = 0;
        let mut first: Option<Piece> = None;
        for x in 0..5usize
            invariant
                y < 5,
                self.full(),
                layout == self.layout(),
                first is None ==> forall|a: int| 0 <= a < x ==> skipped@[a],
                first is Some ==> 0 <= seen < x && !skipped@[seen] && layout[y as int][seen]
                    == first.unwrap(),
                first is Some ==> forall|a: int|
                    0 <= a < x && !skipped@[a] ==> #[trigger] layout[y as int][a] == first.unwrap(),
        {
            if !skipped[x] {
                assert(self.cell(x as int, y as int) is Some);
                let piece = self.piece_state[y][x].piece.unwrap();
                assert(piece == layout[y as int][x as int]);
                match first {
                    None => {
                        first = Some(piece);
                        proof {
                            seen = x as int;
                        }
                    },
                    Some(expected) => {
                        if piece != expected {
                            assert(layout[y as int][seen] != layout[y as int][x as int]);
                            return false;
                        }
                    },
                }
            }
        }
        true
    }

    /// Whether column `x` is uniform among the rows that are not skipped.
    fn column_clears(&self, x: usize, skipped: &[bool; 5]) -> (uniform: bool)
        requires
            self.full(),
            x < 5,
        ensures
            uniform == column_uniform_among(self.layout(), x as int, skipped@),
    {
        let ghost layout = self.layout();
        let ghost mut seen: int = 0;
        let mut first: Option<Piece> = None;
        for y in 0..5usize
            invariant
                x < 5,
                self.full(),
                layout == self.layout(),
                first is None ==> forall|a: int| 0 <= a < y ==> skipped@[a],
                first is Some ==> 0 <= seen < y && !skipped@[seen] && layout[seen][x as int]
                    == first.unwrap(),
                first is Some ==> forall|a: int|
                    0 <= a < y && !skipped@[a] ==> #[trigger] layout[a][x as int] == first.unwrap(),
        {
            if !skipped[y] {
                assert(self.cell(x as int, y as int) is Some);
                let piece = self.piece_state[y][x].piece.unwrap();
                assert(piece == layout[y as int][x as int]);
                match first {
                    None => {
                        first = Some(piece);
                        proof {
                            seen = y as int;
                        }
                    },
                    Some(expected) => {
                        if piece != expected {
                            assert(layout[seen][x as int] != layout[y as int][x as int]);
                            return false;
                        }
                    },
                }
            }
        }
        true
    }

    /// The cascading count of a full board: the number of rows and columns
    /// claimed when the passes stop.
    pub fn count_clears(&self) -> (count: u8)
        requires
            self.full(),
        ensures
            count == clear_count(self.layout()),
            count <= 10,
    {
        let ghost layout = self.layout();
        let mut rows = [false; 5];
        let mut columns = [false; 5];
        let mut count: u8 = 0;
        assert(rows@ =~= Claims::none().rows && columns@ =~= Claims::none().columns);
        loop
            invariant
                self.full(),
                layout == self.layout(),
                count == (Claims { rows: rows@, columns: columns@ }).count(),
                (Claims { rows: rows@, columns: columns@ }).cascade(layout) == Claims::none().cascade(
                    layout,
                ),
            decreases 10 - count,
        {
            let ghost claims = Claims { rows: rows@, columns: columns@ };
            let mut next_rows = [false; 5];
            for y in 0..5usize
                invariant
                    self.full(),
                    layout == self.layout(),
                    forall|j: int|
                        0 <= j < y ==> #[trigger] next_rows@[j] == (rows@[j] || row_uniform_among(
                            layout,
                            j,
                            columns@,
                        )),
            {
                next_rows[y] = rows[y] || self.row_clears(y, &columns);
            }
            let mut next_columns = [false; 5];
            for x in 0..5usize
                invariant
                    self.full(),
                    layout == self.layout(),
                    forall|j: int|
                        0 <= j < x ==> #[trigger] next_columns@[j] == (columns@[j]
                            || column_uniform_among(layout, j, rows@)),
            {
                next_columns[x] = columns[x] || self.column_clears(x, &rows);
            }
            let ghost next = Claims { rows: next_rows@, columns: next_columns@ };
            assert(next == claims.pass(layout)) by {
                assert(next_rows@ =~= claims.pass(layout).rows);
                assert(next_columns@ =~= claims.pass(layout).columns);
            }
            let next_count = tally_flags(&next_rows) + tally_flags(&next_columns);
            if next_count == count || all_flags(&next_rows) || all_flags(&next_columns) {
                return next_count;
            }
            rows = next_rows;
            columns = next_columns;
            count = next_count;
        }
    }
}

/// The first pass of the cascading count is the static check: it claims
/// exactly the rows and columns that hold five equal pieces.
pub proof fn lemma_first_pass(layout: Layout)
    ensures
        forall|y: int|
            0 <= y < 5 ==> #[trigger] Claims::none().pass(layout).rows[y] == row_uniform(layout, y),
        forall|x: int|
            0 <= x < 5 ==> #[trigger] Claims::none().pass(layout).columns[x] == column_uniform(
                layout,
                x,
            ),
        Claims::none().pass(layout).count() == 0 <==> !has_clear(layout),
{
    let none = Claims::none();
    let first = none.pass(layout);
    assert forall|y: int| 0 <= y < 5 implies #[trigger] first.rows[y] == row_uniform(layout, y) by {
        if row_uniform(layout, y) {
            assert forall|a: int, b: int|
                0 <= a < 5 && 0 <= b < 5 implies #[trigger] layout[y][a] == #[trigger] layout[y][b] by {
                assert(layout[y][a] == layout[y][0]);
                assert(layout[y][b] == layout[y][0]);
            }
        }
        if row_uniform_among(layout, y, none.columns) {
            assert forall|a: int| 0 <= a < 5 implies #[trigger] layout[y][a] == layout[y][0] by {
                assert(!none.columns[a] && !none.columns[0]);
            }
        }
    }
    assert forall|x: int| 0 <= x < 5 implies #[trigger] first.columns[x] == column_uniform(
        layout,
        x,
    ) by {
        if column_uniform(layout, x) {
            assert forall|a: int, b: int|
                0 <= a < 5 && 0 <= b < 5 implies #[trigger] layout[a][x] == #[trigger] layout[b][x] by {
                assert(layout[a][x] == layout[0][x]);
                assert(layout[b][x] == layout[0][x]);
            }
        }
        if column_uniform_among(layout, x, none.rows) {
            assert forall|a: int| 0 <= a < 5 implies #[trigger] layout[a][x] == layout[0][x] by {
                assert(!none.rows[a] && !none.rows[0]);
            }
        }
    }
    if has_clear(layout) {
        if exists|y: int| 0 <= y < 5 && row_uniform(layout, y) {
            let y = choose|y: int| 0 <= y < 5 && row_uniform(layout, y);
            assert(first.rows[y]);
        } else {
            let x = choose|x: int| 0 <= x < 5 && column_uniform(layout, x);
            assert(first.columns[x]);
        }
    }
}

/// Passes only add claims, and there are ten lines to claim.
pub proof fn lemma_cascade_grows(claims: Claims, layout: Layout)
    ensures
        claims.count() <= claims.pass(layout).count() <= claims.cascade(layout).count() <= 10,
    decreases 10 - claims.count(),
{
    let next = claims.pass(layout);
    if !claims.settled(next) {
        lemma_cascade_grows(next, layout);
    }
}

/// The cascading count is at most ten, and it is zero exactly when the
/// static check finds no clear.
pub proof fn lemma_clear_count(layout: Layout)
    ensures
        clear_count(layout) <= 10,
        clear_count(layout) == 0 <==> !has_clear(layout),
{
    lemma_first_pass(layout);
    lemma_cascade_grows(Claims::none(), layout);
}

/// A column that becomes uniform once a uniform row is set aside is counted
/// together with that row: the count is then at least two.
pub proof fn lemma_revealed_column_counts(layout: Layout, row: int, column: int)
    requires
        0 <= row < 5,
        0 <= column < 5,
        row_uniform(layout, row),
        column_uniform_among(layout, column, Seq::new(5, |y: int| y == row)),
    ensures
        clear_count(layout) >= 2,
{
    let first = Claims::none().pass(layout);
    let second = first.pass(layout);
    let only_row = Seq::new(5, |y: int| y == row);
    lemma_first_pass(layout);
    assert(first.rows[row]);
    assert(second.rows[row]);
    assert(column_uniform_among(layout, column, first.rows)) by {
        assert forall|a: int, b: int|
            0 <= a < 5 && 0 <= b < 5 && !first.rows[a] && !first.rows[b] implies #[trigger] layout[a][column]
            == #[trigger] layout[b][column] by {
            assert(!only_row[a] && !only_row[b]);
        }
    }
    assert(second.columns[column]);
    lemma_cascade_grows(first, layout);
}

/// A row that becomes uniform once a uniform column is set aside is counted
/// together with that column: the count is then at least two.
pub proof fn lemma_revealed_row_counts(layout: Layout, row: int, column: int)
    requires
        0 <= row < 5,
        0 <= column < 5,
        column_uniform(layout, column),
        row_uniform_among(layout, row, Seq::new(5, |x: int| x == column)),
    ensures
        clear_count(layout) >= 2,
{
    let first = Claims::none().pass(layout);
    let second = first.pass(layout);
    let only_column = Seq::new(5, |x: int| x == column);
    lemma_first_pass(layout);
    assert(first.columns[column]);
    assert(second.columns[column]);
    assert(row_uniform_among(layout, row, first.columns)) by {
        assert forall|a: int, b: int|
            0 <= a < 5 && 0 <= b < 5 && !first.columns[a] && !first.columns[b] implies #[trigger] layout[row][a]
            == #[trigger] layout[row][b] by {
            assert(!only_column[a] && !only_column[b]);
        }
    }
    assert(second.rows[row]);
    lemma_cascade_grows(first, layout);
}

} // verus!

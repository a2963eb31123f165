use cookie_kitchen::board::BoardState;
use cookie_kitchen::clears::{all_equal, board_has_clear};
use cookie_kitchen::piece::Piece;
use cookie_kitchen::piece::Piece::{Checkered, Donut, Flower, Green, Heart, Mascot};

/// Rows are written top to bottom as y = 0, 1, 2, 3, 4.
fn board_of(rows: [[Piece; 5]; 5]) -> BoardState {
    let mut board = BoardState::empty([[0; 5]; 5], 0);
    for y in 0..5 {
        for x in 0..5 {
            board.set(x, y, rows[y][x]);
        }
    }
    board
}

/// A board on which no row and no column holds two equal pieces.
fn scrambled() -> [[Piece; 5]; 5] {
    [
        [Mascot, Checkered, Donut, Flower, Green],
        [Checkered, Donut, Flower, Green, Heart],
        [Donut, Flower, Green, Heart, Mascot],
        [Flower, Green, Heart, Mascot, Checkered],
        [Green, Heart, Mascot, Checkered, Donut],
    ]
}

#[test]
fn all_equal_on_slices() {
    assert!(all_equal(&[]));
    assert!(all_equal(&[Heart]));
    assert!(all_equal(&[Heart, Heart, Heart]));
    assert!(!all_equal(&[Heart, Heart, Green]));
    assert!(!all_equal(&[Mascot, Heart, Heart]));
}

#[test]
fn scrambled_board_has_no_clear() {
    assert!(!board_has_clear(&scrambled()));
    assert_eq!(board_of(scrambled()).count_clears(), 0);
}

#[test]
fn uniform_row_is_a_clear() {
    for y in 0..5 {
        let mut rows = scrambled();
        rows[y] = [Heart; 5];
        assert!(board_has_clear(&rows));
        assert_eq!(board_of(rows).count_clears(), 1);
    }
}

#[test]
fn uniform_column_is_a_clear() {
    for x in 0..5 {
        let mut rows = scrambled();
        for y in 0..5 {
            rows[y][x] = Donut;
        }
        assert!(board_has_clear(&rows));
        assert_eq!(board_of(rows).count_clears(), 1);
    }
}

#[test]
fn four_equal_pieces_are_no_clear() {
    let mut rows = scrambled();
    rows[2] = [Heart, Heart, Heart, Heart, Mascot];
    assert!(!board_has_clear(&rows));
    assert_eq!(board_of(rows).count_clears(), 0);
}

#[test]
fn claimed_row_reveals_a_column() {
    let rows = [
        [Mascot, Mascot, Mascot, Mascot, Mascot],
        [Checkered, Donut, Flower, Green, Heart],
        [Checkered, Flower, Green, Heart, Donut],
        [Checkered, Green, Heart, Donut, Flower],
        [Checkered, Heart, Donut, Flower, Green],
    ];
    assert!(board_has_clear(&rows));
    assert_eq!(board_of(rows).count_clears(), 2);
}

#[test]
fn claimed_column_reveals_a_row() {
    let rows = [
        [Mascot, Checkered, Checkered, Checkered, Checkered],
        [Mascot, Donut, Flower, Green, Heart],
        [Mascot, Flower, Green, Heart, Donut],
        [Mascot, Green, Heart, Donut, Flower],
        [Mascot, Heart, Donut, Flower, Green],
    ];
    assert_eq!(board_of(rows).count_clears(), 2);
}

#[test]
fn cascade_runs_over_several_passes() {
    // Row 0 is uniform. Without it column 0 is uniform. Without both,
    // row 1 is uniform among the columns that remain.
    let rows = [
        [Mascot, Mascot, Mascot, Mascot, Mascot],
        [Checkered, Heart, Heart, Heart, Heart],
        [Checkered, Flower, Green, Heart, Donut],
        [Checkered, Green, Heart, Donut, Flower],
        [Checkered, Heart, Donut, Flower, Green],
    ];
    assert_eq!(board_of(rows).count_clears(), 3);
}

#[test]
fn row_and_column_are_both_counted() {
    let mut rows = scrambled();
    rows[1] = [Heart; 5];
    for y in 0..5 {
        rows[y][3] = Heart;
    }
    assert_eq!(board_of(rows).count_clears(), 2);
}

#[test]
fn uniform_board_counts_every_line() {
    let rows = [[Green; 5]; 5];
    assert!(board_has_clear(&rows));
    assert_eq!(board_of(rows).count_clears(), 10);
}

#[test]
fn five_uniform_rows_of_different_kinds() {
    let rows = [[Mascot; 5], [Checkered; 5], [Donut; 5], [Flower; 5], [Green; 5]];
    assert!(board_has_clear(&rows));
    assert_eq!(board_of(rows).count_clears(), 5);
}

#[test]
fn count_is_zero_exactly_without_a_clear() {
    let mut boards = vec![scrambled(), [[Heart; 5]; 5]];
    let mut with_row = scrambled();
    with_row[4] = [Mascot; 5];
    boards.push(with_row);
    let mut with_column = scrambled();
    for y in 0..5 {
        with_column[y][0] = Flower;
    }
    boards.push(with_column);
    for rows in boards {
        let count = board_of(rows).count_clears();
        assert_eq!(count == 0, !board_has_clear(&rows));
        assert!(count <= 10);
    }
}

#[test]
fn counting_leaves_the_board_alone() {
    let board = board_of(scrambled());
    let copy = board;
    board.count_clears();
    assert_eq!(board, copy);
}

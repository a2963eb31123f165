use cookie_kitchen::board::{BoardState, PieceState};
use cookie_kitchen::cursor::{BoardLocation, Direction};
use cookie_kitchen::piece::Piece;

fn numbered_entities() -> [[u64; 5]; 5] {
    let mut entities = [[0u64; 5]; 5];
    for y in 0..5 {
        for x in 0..5 {
            entities[y][x] = (10 * y + x) as u64;
        }
    }
    entities
}

#[test]
fn catalog_lists_six_kinds_in_display_order() {
    let all = Piece::all_pieces();
    assert_eq!(
        all,
        [
            Piece::Mascot,
            Piece::Checkered,
            Piece::Donut,
            Piece::Flower,
            Piece::Green,
            Piece::Heart
        ]
    );
    for (i, piece) in all.iter().enumerate() {
        assert_eq!(piece.texture_index(), i);
    }
}

#[test]
fn texture_index_of_each_kind() {
    assert_eq!(Piece::Mascot.texture_index(), 0);
    assert_eq!(Piece::Checkered.texture_index(), 1);
    assert_eq!(Piece::Donut.texture_index(), 2);
    assert_eq!(Piece::Flower.texture_index(), 3);
    assert_eq!(Piece::Green.texture_index(), 4);
    assert_eq!(Piece::Heart.texture_index(), 5);
}

#[test]
fn empty_board_has_no_pieces_and_keeps_handles() {
    let board = BoardState::empty(numbered_entities(), 99);
    assert!(board.has_empty());
    assert!(!board.is_full());
    assert_eq!(board.extra_entity, 99);
    for y in 0..5 {
        for x in 0..5 {
            assert_eq!(board.get(x, y), None);
            assert_eq!(
                board.piece_state[y][x],
                PieceState { piece: None, entity: (10 * y + x) as u64 }
            );
        }
    }
}

#[test]
fn set_changes_one_cell_only() {
    let mut board = BoardState::empty(numbered_entities(), 99);
    board.set(3, 1, Piece::Donut);
    for y in 0..5 {
        for x in 0..5 {
            let expected = if x == 3 && y == 1 { Some(Piece::Donut) } else { None };
            assert_eq!(board.get(x, y), expected);
            assert_eq!(board.piece_state[y][x].entity, (10 * y + x) as u64);
        }
    }
    board.set(3, 1, Piece::Heart);
    assert_eq!(board.get(3, 1), Some(Piece::Heart));
}

#[test]
fn board_is_full_only_when_every_cell_is_set() {
    let mut board = BoardState::empty(numbered_entities(), 99);
    for y in 0..5 {
        for x in 0..5 {
            assert!(board.has_empty());
            assert!(!board.is_full());
            board.set(x, y, Piece::Green);
        }
    }
    assert!(board.is_full());
    assert!(!board.has_empty());
}

#[test]
fn clear_all_empties_every_cell() {
    let mut board = BoardState::empty(numbered_entities(), 99);
    for y in 0..5 {
        for x in 0..5 {
            board.set(x, y, Piece::Flower);
        }
    }
    board.clear_all();
    assert_eq!(board, BoardState::empty(numbered_entities(), 99));
}

#[test]
fn cursor_wraps_up_and_left() {
    let mut cursor = BoardLocation::new(2, 4).unwrap();
    let position = cursor.move_cursor(Direction::Up);
    assert_eq!((position.x(), position.y()), (2, 0));
    assert_eq!((cursor.x(), cursor.y()), (2, 0));

    let mut cursor = BoardLocation::new(0, 3).unwrap();
    cursor.move_cursor(Direction::Left);
    assert_eq!((cursor.x(), cursor.y()), (4, 3));
}

#[test]
fn cursor_wraps_down_and_right() {
    let mut cursor = BoardLocation::new(1, 0).unwrap();
    cursor.move_cursor(Direction::Down);
    assert_eq!((cursor.x(), cursor.y()), (1, 4));

    let mut cursor = BoardLocation::new(4, 2).unwrap();
    cursor.move_cursor(Direction::Right);
    assert_eq!((cursor.x(), cursor.y()), (0, 2));
}

#[test]
fn cursor_moves_one_cell_inside_the_board() {
    let mut cursor = BoardLocation::center();
    assert_eq!((cursor.x(), cursor.y()), (2, 2));
    cursor.move_cursor(Direction::Up);
    assert_eq!((cursor.x(), cursor.y()), (2, 3));
    cursor.move_cursor(Direction::Right);
    assert_eq!((cursor.x(), cursor.y()), (3, 3));
    cursor.move_cursor(Direction::Down);
    assert_eq!((cursor.x(), cursor.y()), (3, 2));
    cursor.move_cursor(Direction::Left);
    assert_eq!((cursor.x(), cursor.y()), (2, 2));
}

#[test]
fn five_steps_go_round_the_board() {
    for direction in [Direction::Up, Direction::Down, Direction::Left, Direction::Right] {
        for y in 0..5u8 {
            for x in 0..5u8 {
                let start = BoardLocation::new(x, y).unwrap();
                let mut cursor = start;
                for _ in 0..5 {
                    cursor.move_cursor(direction);
                }
                assert_eq!(cursor, start);
            }
        }
    }
}

#[test]
fn location_off_the_board_is_refused() {
    assert_eq!(BoardLocation::new(5, 0), None);
    assert_eq!(BoardLocation::new(0, 5), None);
    assert_eq!(BoardLocation::new(255, 255), None);
    assert!(BoardLocation::new(4, 4).is_some());
    assert!(BoardLocation::new(0, 0).is_some());
}

#[test]
fn direction_offsets() {
    assert_eq!(Direction::Up.offset(), (0, 1));
    assert_eq!(Direction::Down.offset(), (0, -1));
    assert_eq!(Direction::Left.offset(), (-1, 0));
    assert_eq!(Direction::Right.offset(), (1, 0));
    assert!(Direction::Up.is_vertical());
    assert!(Direction::Down.is_vertical());
    assert!(!Direction::Left.is_vertical());
    assert!(!Direction::Right.is_vertical());
}

use cookie_kitchen::cursor::Direction;
use cookie_kitchen::input::{
    update_input, Intent, Keys, PreviousInput, FPS, INPUT_WINDOW, NANOS_PER_SECOND,
};

fn pressing(change: fn(&mut Keys)) -> Keys {
    let mut keys = Keys::none();
    change(&mut keys);
    keys
}

#[test]
fn input_window_is_three_frames() {
    assert_eq!(FPS, 60);
    assert_eq!(NANOS_PER_SECOND, 1_000_000_000);
    assert_eq!(INPUT_WINDOW, 50_000_000);
}

#[test]
fn no_keys_means_no_direction() {
    let keys = Keys::none();
    assert_eq!(keys.direction_pressed(), None);
    assert!(!keys.shift_held());
    assert!(!keys.space);
}

#[test]
fn each_direction_has_two_keys() {
    assert_eq!(pressing(|k| k.e = true).direction_pressed(), Some(Direction::Up));
    assert_eq!(pressing(|k| k.arrow_up = true).direction_pressed(), Some(Direction::Up));
    assert_eq!(pressing(|k| k.d = true).direction_pressed(), Some(Direction::Down));
    assert_eq!(pressing(|k| k.arrow_down = true).direction_pressed(), Some(Direction::Down));
    assert_eq!(pressing(|k| k.s = true).direction_pressed(), Some(Direction::Left));
    assert_eq!(pressing(|k| k.arrow_left = true).direction_pressed(), Some(Direction::Left));
    assert_eq!(pressing(|k| k.f = true).direction_pressed(), Some(Direction::Right));
    assert_eq!(pressing(|k| k.arrow_right = true).direction_pressed(), Some(Direction::Right));
}

#[test]
fn simultaneous_directions_are_ranked() {
    let all = pressing(|k| {
        k.arrow_up = true;
        k.arrow_down = true;
        k.arrow_left = true;
        k.arrow_right = true;
    });
    assert_eq!(all.direction_pressed(), Some(Direction::Up));
    let three = pressing(|k| {
        k.d = true;
        k.s = true;
        k.f = true;
    });
    assert_eq!(three.direction_pressed(), Some(Direction::Down));
    let two = pressing(|k| {
        k.arrow_left = true;
        k.f = true;
    });
    assert_eq!(two.direction_pressed(), Some(Direction::Left));
}

#[test]
fn either_shift_key_counts() {
    assert!(pressing(|k| k.left_shift = true).shift_held());
    assert!(pressing(|k| k.right_shift = true).shift_held());
    assert_eq!(pressing(|k| k.left_shift = true).direction_pressed(), None);
}

#[test]
fn new_debouncer_is_idle() {
    let mut input = PreviousInput::new();
    assert_eq!(input, PreviousInput { elapsed: 0, direction: None, shift_held: false });
    assert_eq!(PreviousInput::default(), input);
    assert_eq!(input.take(), None);
}

#[test]
fn key_edge_becomes_the_pending_move() {
    let mut input = PreviousInput { elapsed: 77, direction: None, shift_held: false };
    let keys = pressing(|k| {
        k.arrow_left = true;
        k.right_shift = true;
    });
    update_input(&mut input, 16_000_000, &keys);
    assert_eq!(
        input,
        PreviousInput { elapsed: 0, direction: Some(Direction::Left), shift_held: true }
    );
}

#[test]
fn fresh_move_fires_exactly_once() {
    let mut input = PreviousInput::new();
    update_input(&mut input, 16_000_000, &pressing(|k| k.e = true));
    update_input(&mut input, 16_000_000, &Keys::none());
    update_input(&mut input, 34_000_000, &Keys::none());
    assert_eq!(input.elapsed, INPUT_WINDOW);

    assert_eq!(input.take(), Some(Intent { direction: Direction::Up, slide: false }));
    assert_eq!(input.direction, None);
    assert_eq!(input.take(), None);
    update_input(&mut input, 1, &Keys::none());
    assert_eq!(input.take(), None);
}

#[test]
fn stale_move_is_dropped() {
    let mut input = PreviousInput::new();
    update_input(&mut input, 0, &pressing(|k| k.f = true));
    update_input(&mut input, 50_000_000, &Keys::none());
    update_input(&mut input, 1, &Keys::none());
    assert_eq!(input.elapsed, INPUT_WINDOW + 1);

    assert_eq!(input.take(), None);
    assert_eq!(input.direction, None);
    assert_eq!(input.take(), None);
}

#[test]
fn move_taken_at_once_fires() {
    let mut input = PreviousInput::new();
    let keys = pressing(|k| {
        k.d = true;
        k.left_shift = true;
    });
    update_input(&mut input, 5_000_000_000, &keys);
    assert_eq!(input.take(), Some(Intent { direction: Direction::Down, slide: true }));
}

#[test]
fn new_key_edge_replaces_the_pending_move() {
    let mut input = PreviousInput::new();
    update_input(&mut input, 0, &pressing(|k| {
        k.e = true;
        k.left_shift = true;
    }));
    update_input(&mut input, 40_000_000, &Keys::none());
    update_input(&mut input, 40_000_000, &pressing(|k| k.s = true));
    assert_eq!(
        input,
        PreviousInput { elapsed: 0, direction: Some(Direction::Left), shift_held: false }
    );
    assert_eq!(input.take(), Some(Intent { direction: Direction::Left, slide: false }));
}

#[test]
fn idle_debouncer_does_not_age() {
    let mut input = PreviousInput::new();
    update_input(&mut input, 123, &Keys::none());
    update_input(&mut input, 456, &pressing(|k| k.left_shift = true));
    assert_eq!(input, PreviousInput::new());
}

#[test]
fn shift_after_the_edge_is_ignored() {
    let mut input = PreviousInput::new();
    update_input(&mut input, 0, &pressing(|k| k.f = true));
    update_input(&mut input, 10, &pressing(|k| k.left_shift = true));
    assert_eq!(input.take(), Some(Intent { direction: Direction::Right, slide: false }));
}

#[test]
fn age_stops_at_the_largest_value() {
    let mut input = PreviousInput::new();
    update_input(&mut input, 0, &pressing(|k| k.e = true));
    update_input(&mut input, u64::MAX - 1, &Keys::none());
    update_input(&mut input, 5, &Keys::none());
    assert_eq!(input.elapsed, u64::MAX);
    assert_eq!(input.take(), None);
}

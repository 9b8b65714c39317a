use snake_game::grid::NUM_LEDS;
use snake_game::snake::{Direction, Snake};

fn snake_with_body(cells: &[(usize, usize)], direction: Direction) -> Snake {
    let mut body = vec![(0usize, 0usize); NUM_LEDS];
    for (i, &c) in cells.iter().enumerate() {
        body[i] = c;
    }
    Snake { body, length: cells.len(), direction }
}

#[test]
fn new_snake_has_single_segment() {
    let s = Snake::new(Direction::UP, (4, 0));
    assert_eq!(s.length, 1);
    assert_eq!(s.body[0], (4, 0));
    assert_eq!(s.direction, Direction::UP);
    assert_eq!(s.body.len(), NUM_LEDS);
}

#[test]
fn occupies_exactly_the_body_prefix() {
    let s = snake_with_body(&[(2, 2), (2, 1), (3, 1)], Direction::RIGHT);
    assert!(s.occupies(2, 2));
    assert!(s.occupies(2, 1));
    assert!(s.occupies(3, 1));
    // (0, 0) fills the unoccupied suffix of the buffer but is not occupied.
    assert!(!s.occupies(0, 0));
    assert!(!s.occupies(3, 2));
}

#[test]
fn successful_move_keeps_length_and_steps_head() {
    let mut s = snake_with_body(&[(2, 2), (2, 1), (3, 1)], Direction::DOWN);
    let old_head = s.body[0];
    assert!(s.move_snake());
    assert_eq!(s.length, 3);
    assert_eq!(s.body[0], (old_head.0 + 1, old_head.1));
    // Segments shifted one slot toward the tail.
    assert_eq!(s.body[1], (2, 2));
    assert_eq!(s.body[2], (2, 1));
}

#[test]
fn moving_into_the_vacated_tail_cell_is_allowed() {
    // A 2 x 2 block of snake turning on itself: the head may re-enter the
    // cell the tail leaves on the same step.
    let mut s = snake_with_body(&[(2, 2), (2, 1), (3, 1), (3, 2)], Direction::DOWN);
    assert!(s.move_snake());
    assert_eq!(s.body[0], (3, 2));
    assert_eq!(s.length, 4);
}

#[test]
fn move_into_own_body_is_rejected() {
    let mut s = snake_with_body(&[(2, 2), (2, 1), (3, 1), (3, 2)], Direction::LEFT);
    // Candidate head (2, 1) still holds a body segment after the shift.
    assert!(!s.move_snake());
}

#[test]
fn move_off_the_grid_is_rejected() {
    let mut s = Snake::new(Direction::UP, (0, 3));
    assert!(!s.move_snake());
    let mut s = Snake::new(Direction::LEFT, (3, 0));
    assert!(!s.move_snake());
    let mut s = Snake::new(Direction::DOWN, (4, 3));
    assert!(!s.move_snake());
    let mut s = Snake::new(Direction::RIGHT, (3, 4));
    assert!(!s.move_snake());
}

#[test]
fn grow_appends_the_captured_tail() {
    let mut s = Snake::new(Direction::UP, (4, 0));
    let tail = s.body[s.length - 1];
    assert!(s.move_snake());
    s.grow(tail);
    assert_eq!(s.length, 2);
    assert_eq!(s.body[s.length - 1], tail);
    assert_eq!(s.body[0], (3, 0));
}

#[test]
fn check_colision_flags_head_on_body() {
    let ok = snake_with_body(&[(2, 2), (2, 1), (3, 1)], Direction::UP);
    assert!(!ok.check_colision());
    let bad = snake_with_body(&[(2, 1), (2, 1), (3, 1)], Direction::UP);
    assert!(bad.check_colision());
}

#[test]
fn check_colision_flags_head_off_grid() {
    let bad = snake_with_body(&[(5, 0)], Direction::UP);
    assert!(bad.check_colision());
    let bad = snake_with_body(&[(0, 7)], Direction::UP);
    assert!(bad.check_colision());
}

#[test]
fn direction_to_delta_matches_headings() {
    assert_eq!(Snake::new(Direction::UP, (2, 2)).direction_to_delta(), (-1, 0));
    assert_eq!(Snake::new(Direction::DOWN, (2, 2)).direction_to_delta(), (1, 0));
    assert_eq!(Snake::new(Direction::LEFT, (2, 2)).direction_to_delta(), (0, -1));
    assert_eq!(Snake::new(Direction::RIGHT, (2, 2)).direction_to_delta(), (0, 1));
}

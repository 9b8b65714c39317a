use snake_game::game::{Game, GameStatus, Rgb};
use snake_game::grid::{pos_to_index, NUM_LEDS};
use snake_game::input::read_joystick;
use snake_game::snake::Direction;

const CENTER: u16 = 2000;
const INTERVAL: u64 = 10;

#[test]
fn joystick_y_near_max_wins_regardless_of_x() {
    assert_eq!(read_joystick(0, 4095, Direction::LEFT), Direction::UP);
    assert_eq!(read_joystick(4095, 4095, Direction::LEFT), Direction::UP);
    assert_eq!(read_joystick(CENTER, 4046, Direction::LEFT), Direction::UP);
}

#[test]
fn joystick_y_takes_priority_over_x() {
    // Both axes out of their deadzones at once: Y decides.
    assert_eq!(read_joystick(4095, 0, Direction::LEFT), Direction::DOWN);
    assert_eq!(read_joystick(0, 0, Direction::LEFT), Direction::DOWN);
    assert_eq!(read_joystick(0, 4095, Direction::DOWN), Direction::UP);
}

#[test]
fn joystick_x_and_hold_semantics() {
    assert_eq!(read_joystick(4095, CENTER, Direction::UP), Direction::RIGHT);
    assert_eq!(read_joystick(0, CENTER, Direction::UP), Direction::LEFT);
    assert_eq!(read_joystick(CENTER, CENTER, Direction::UP), Direction::UP);
    assert_eq!(read_joystick(CENTER, CENTER, Direction::RIGHT), Direction::RIGHT);
}

#[test]
fn two_quiet_moves_reach_expected_cell() {
    // Length-1 snake at (4, 0) heading UP, apple at (2, 2): two movement
    // ticks with the stick centered put the head at (2, 0) and change
    // nothing else.
    let mut g = Game::new(Direction::UP, (4, 0), (2, 2), 0);
    assert!(!g.step(CENTER, CENTER, 10, INTERVAL));
    assert_eq!(g.snake.body[0], (3, 0));
    assert!(!g.step(CENTER, CENTER, 20, INTERVAL));
    assert_eq!(g.snake.body[0], (2, 0));
    assert_eq!(g.snake.length, 1);
    assert_eq!((g.apple.x, g.apple.y), (2, 2));
    assert_eq!(g.status, GameStatus::Running);
}

#[test]
fn no_move_before_the_interval_elapses() {
    let mut g = Game::new(Direction::UP, (4, 0), (2, 2), 0);
    assert!(!g.step(CENTER, CENTER, 9, INTERVAL));
    assert_eq!(g.snake.body[0], (4, 0));
    // The joystick still steers between movement ticks.
    assert!(!g.step(4095, CENTER, 9, INTERVAL));
    assert_eq!(g.snake.direction, Direction::RIGHT);
}

#[test]
fn eating_the_apple_grows_and_respawns() {
    // Head one cell below the apple: the next tick lands on it exactly.
    let mut g = Game::new(Direction::UP, (3, 2), (2, 2), 0);
    assert!(!g.step(CENTER, CENTER, 10, INTERVAL));
    assert_eq!(g.snake.length, 2);
    assert_eq!(g.snake.body[0], (2, 2));
    assert_eq!(g.snake.body[1], (3, 2));
    assert_eq!(g.status, GameStatus::Running);
    // The apple moved somewhere off the snake.
    let apple = (g.apple.x, g.apple.y);
    assert_ne!(apple, (2, 2));
    assert!(!g.snake.occupies(apple.0, apple.1));
}

#[test]
fn edge_move_terminates_and_signals_once() {
    // Heading off the top edge: the move is rejected, the game enters its
    // terminal state, and the fault signal fires on exactly one call.
    let mut g = Game::new(Direction::UP, (0, 0), (2, 2), 0);
    let mut signals = 0;
    for i in 1..=3u64 {
        if g.step(CENTER, CENTER, i * 10, INTERVAL) {
            signals += 1;
        }
    }
    assert_eq!(g.status, GameStatus::Terminated);
    assert_eq!(signals, 1);
}

#[test]
fn reversing_into_the_neck_collides() {
    // Eat twice on the way up to reach length 3, then reverse: with three
    // segments the neck cell is still occupied after the shift, so the move
    // is rejected. (At length 2 the reversal target is the vacated tail
    // cell, which is a legal move.)
    let mut g = Game::new(Direction::UP, (3, 2), (2, 2), 0);
    assert!(!g.step(CENTER, CENTER, 10, INTERVAL));
    assert_eq!(g.snake.length, 2);
    assert_eq!((g.apple.x, g.apple.y), (0, 2));
    assert!(!g.step(CENTER, CENTER, 20, INTERVAL));
    assert!(!g.step(CENTER, CENTER, 30, INTERVAL));
    assert_eq!(g.snake.length, 3);
    let done = g.step(CENTER, 0, 40, INTERVAL);
    assert!(done);
    assert_eq!(g.status, GameStatus::Terminated);
}

#[test]
fn length_two_reversal_swaps_into_the_vacated_tail() {
    let mut g = Game::new(Direction::UP, (3, 2), (2, 2), 0);
    assert!(!g.step(CENTER, CENTER, 10, INTERVAL));
    assert_eq!(g.snake.length, 2);
    assert!(!g.step(CENTER, 0, 20, INTERVAL));
    assert_eq!(g.snake.body[0], (3, 2));
    assert_eq!(g.snake.body[1], (2, 2));
    assert_eq!(g.status, GameStatus::Running);
}

#[test]
fn render_paints_snake_apple_and_background() {
    let g = Game::new(Direction::UP, (4, 0), (2, 2), 0);
    let frame = g.render();
    assert_eq!(frame.len(), NUM_LEDS);
    let snake_idx = pos_to_index(4, 0);
    let apple_idx = pos_to_index(2, 2);
    for idx in 0..NUM_LEDS {
        let expected = if idx == snake_idx {
            Rgb { r: 0, g: 128, b: 0 }
        } else if idx == apple_idx {
            Rgb { r: 255, g: 0, b: 0 }
        } else {
            Rgb { r: 0, g: 0, b: 0 }
        };
        assert_eq!(frame[idx], expected);
    }
}

#[test]
fn render_draws_snake_over_nothing_else_after_growth() {
    let mut g = Game::new(Direction::UP, (3, 2), (2, 2), 0);
    assert!(!g.step(CENTER, CENTER, 10, INTERVAL));
    let frame = g.render();
    assert_eq!(frame[pos_to_index(2, 2)], Rgb { r: 0, g: 128, b: 0 });
    assert_eq!(frame[pos_to_index(3, 2)], Rgb { r: 0, g: 128, b: 0 });
    assert_eq!(frame[pos_to_index(g.apple.x, g.apple.y)], Rgb { r: 255, g: 0, b: 0 });
}

#[test]
fn terminated_game_ignores_further_input() {
    let mut g = Game::new(Direction::UP, (0, 0), (2, 2), 0);
    assert!(g.step(CENTER, CENTER, 10, INTERVAL));
    let body_after = g.snake.body[0];
    assert!(!g.step(4095, CENTER, 20, INTERVAL));
    assert_eq!(g.snake.body[0], body_after);
    assert_eq!(g.status, GameStatus::Terminated);
}

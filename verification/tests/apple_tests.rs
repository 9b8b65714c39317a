use snake_game::apple::Apple;
use snake_game::grid::{BOARD_SIZE, NUM_LEDS};
use snake_game::snake::{Direction, Snake};

fn snake_with_body(cells: &[(usize, usize)], direction: Direction) -> Snake {
    let mut body = vec![(0usize, 0usize); NUM_LEDS];
    for (i, &c) in cells.iter().enumerate() {
        body[i] = c;
    }
    Snake { body, length: cells.len(), direction }
}

#[test]
fn apple_new_stores_position() {
    let a = Apple::new((2, 2));
    assert_eq!((a.x, a.y), (2, 2));
}

#[test]
fn spawn_takes_first_free_probe() {
    // Seed 0 probes (0, 0) first; a snake sitting there pushes the probe
    // value to 27, which reads as cell (2, 0).
    let s = snake_with_body(&[(0, 0)], Direction::UP);
    let mut a = Apple::new((4, 4));
    let pos = a.spawn_apple(&s, 0);
    assert_eq!(pos, (2, 0));
    assert_eq!((a.x, a.y), (2, 0));
}

#[test]
fn spawn_is_deterministic() {
    let s = snake_with_body(&[(1, 1), (1, 2)], Direction::UP);
    let mut a1 = Apple::new((0, 0));
    let mut a2 = Apple::new((3, 3));
    assert_eq!(a1.spawn_apple(&s, 4242), a2.spawn_apple(&s, 4242));
}

#[test]
fn spawn_never_lands_on_the_snake() {
    let configs: Vec<Vec<(usize, usize)>> = vec![
        vec![(0, 0)],
        vec![(2, 2), (2, 1), (2, 0), (1, 0), (0, 0)],
        vec![(4, 4), (4, 3), (3, 3), (3, 4), (2, 4), (2, 3), (2, 2)],
        // Nearly full board: every cell but (4, 4).
        (0..NUM_LEDS - 1).map(|i| (i / BOARD_SIZE, i % BOARD_SIZE)).collect(),
    ];
    for cells in &configs {
        let s = snake_with_body(cells, Direction::UP);
        for seed in 0..200u64 {
            let mut a = Apple::new((0, 0));
            let (row, col) = a.spawn_apple(&s, seed);
            assert!(row < BOARD_SIZE && col < BOARD_SIZE);
            assert!(!s.occupies(row, col), "seed {} landed on the snake", seed);
        }
    }
}

#[test]
fn spawn_on_nearly_full_board_finds_the_hole() {
    // Every cell occupied except (3, 2): all probe chains must settle there.
    let cells: Vec<(usize, usize)> = (0..NUM_LEDS)
        .map(|i| (i / BOARD_SIZE, i % BOARD_SIZE))
        .filter(|&c| c != (3, 2))
        .collect();
    let s = snake_with_body(&cells, Direction::UP);
    for seed in 0..100u64 {
        let mut a = Apple::new((0, 0));
        assert_eq!(a.spawn_apple(&s, seed), (3, 2));
    }
}

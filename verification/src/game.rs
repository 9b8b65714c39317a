//! The per-iteration game state machine and the frame renderer.
//!
//! Each iteration of the outer loop samples the joystick, advances the game
//! one step, and pushes a freshly rendered frame to the LED sink. The loop
//! itself, the sampling and the transmission are platform glue; `step` and
//! `render` hold everything the glue decides nothing about.

use vstd::prelude::*;
use crate::apple::{Apple, PROBE_STRIDE, probe, probe_free};
use crate::grid::{BOARD_SIZE, NUM_LEDS, in_bounds, pos_to_index, pos_to_index_spec};
use crate::input::{joystick_spec, read_joystick};
use crate::snake::{Direction, Snake};

verus! {

/// One LED's color.
#[derive(Clone, Copy, PartialEq, Eq, Structural, Debug)]
pub struct Rgb {
    pub r: u8,
    pub g: u8,
    pub b: u8,
}

/// Color of the apple's cell.
pub open spec fn apple_color() -> Rgb {
    Rgb { r: 255, g: 0, b: 0 }
}

/// Color of the snake's cells.
pub open spec fn snake_color() -> Rgb {
    Rgb { r: 0, g: 128, b: 0 }
}

/// Color of every other cell.
pub open spec fn background_color() -> Rgb {
    Rgb { r: 0, g: 0, b: 0 }
}

/// The game either runs or has reached its terminal state; there is no
/// transition out of `Terminated` short of a restart.
#[derive(Clone, Copy, PartialEq, Eq, Structural, Debug)]
pub enum GameStatus {
    Running,
    Terminated,
}

/// The whole game state threaded through the loop.
pub struct Game {
    pub snake: Snake,
    pub apple: Apple,
    pub status: GameStatus,
    pub last_update: u64,
}

/// The snake as the joystick sample leaves it: same body, steered heading.
pub open spec fn steered(s: Snake, x: u16, y: u16) -> Snake {
    Snake { body: s.body, length: s.length, direction: joystick_spec(x, y, s.direction) }
}

/// The cell the snake is about to move onto, as machine integers; meaningful
/// when the move stays on the grid.
pub open spec fn stepped_head(s: Snake) -> (usize, usize) {
    (s.target().0 as usize, s.target().1 as usize)
}

impl Game {
    /// While the game runs, the snake is well-formed and the apple sits on a
    /// grid cell the snake does not occupy.
    pub open spec fn wf(self) -> bool {
        self.status is Running ==> {
            &&& self.snake.wf()
            &&& self.apple.x < BOARD_SIZE
            &&& self.apple.y < BOARD_SIZE
            &&& !self.snake.occupies_cell(self.apple.x as int, self.apple.y as int)
        }
    }

    /// A movement tick is due at `now`.
    pub open spec fn tick_due(self, now: u64, move_interval: u64) -> bool {
        now - self.last_update >= move_interval
    }

    /// A fresh game: a length-1 snake at `start` heading `direction`, the
    /// apple at `apple_pos`, the movement timer anchored at `now`.
    pub fn new(direction: Direction, start: (usize, usize), apple_pos: (usize, usize), now: u64)
        -> (g: Game)
        requires
            start.0 < BOARD_SIZE,
            start.1 < BOARD_SIZE,
            apple_pos.0 < BOARD_SIZE,
            apple_pos.1 < BOARD_SIZE,
            apple_pos != start,
        ensures
            g.wf(),
            g.status is Running,
            g.snake.length == 1,
            g.snake.direction == direction,
            g.snake.body@[0] == start,
            g.apple.x == apple_pos.0,
            g.apple.y == apple_pos.1,
            g.last_update == now,
    {
        let snake = Snake::new(direction, start);
        let apple = Apple::new(apple_pos);
        Game { snake, apple, status: GameStatus::Running, last_update: now }
    }

    /// One iteration of the game logic, fed the two raw joystick samples and
    /// the current tick count.
    ///
    /// While running: a snake already in collision terminates the game;
    /// otherwise the heading is steered by the joystick, and once
    /// `move_interval` ticks have elapsed since the last update the snake
    /// advances, a rejected move terminates the game, landing on the apple
    /// grows the snake by the vacated tail cell and relocates the apple with
    /// `now` as the probe seed, and the update time is recorded. A board
    /// filled completely by growth terminates the game, as no cell is left
    /// for an apple. `Terminated` is absorbing.
    ///
    /// Returns true exactly when this call moved the game from `Running` to
    /// `Terminated`; the caller asserts the fault indicator on it.
    ///
    /// The bound on `now` leaves headroom for the respawn probes; tick
    /// wraparound within a run is not handled, matching the monotonic tick
    /// source.
    pub fn step(&mut self, raw_x: u16, raw_y: u16, now: u64, move_interval: u64) -> (just_terminated:
        bool)
        requires
            old(self).wf(),
            now >= old(self).last_update,
            now + PROBE_STRIDE * NUM_LEDS <= u64::MAX,
        ensures
            final(self).wf(),
            just_terminated == (old(self).status is Running && final(self).status
                is Terminated),
            old(self).status is Terminated ==> *final(self) == *old(self),
            old(self).status is Running && old(self).snake.colliding_spec() ==> {
                &&& final(self).status is Terminated
                &&& final(self).snake == old(self).snake
                &&& final(self).apple == old(self).apple
                &&& final(self).last_update == old(self).last_update
            },
            old(self).status is Running && !old(self).snake.colliding_spec() && !old(
                self,
            ).tick_due(now, move_interval) ==> {
                &&& final(self).status is Running
                &&& final(self).snake == steered(old(self).snake, raw_x, raw_y)
                &&& final(self).apple == old(self).apple
                &&& final(self).last_update == old(self).last_update
            },
            old(self).status is Running && !old(self).snake.colliding_spec() && old(
                self,
            ).tick_due(now, move_interval) && !steered(old(self).snake, raw_x, raw_y).advance_ok()
                ==> {
                &&& final(self).status is Terminated
                &&& final(self).snake.body@ == steered(old(self).snake, raw_x, raw_y).shifted()
                &&& final(self).snake.length == old(self).snake.length
                &&& final(self).snake.direction == joystick_spec(
                    raw_x,
                    raw_y,
                    old(self).snake.direction,
                )
                &&& final(self).apple == old(self).apple
                &&& final(self).last_update == old(self).last_update
            },
            old(self).status is Running && !old(self).snake.colliding_spec() && old(
                self,
            ).tick_due(now, move_interval) && steered(old(self).snake, raw_x, raw_y).advance_ok()
                ==> {
                let s1 = steered(old(self).snake, raw_x, raw_y);
                let moved = s1.shifted().update(0, stepped_head(s1));
                let ate = stepped_head(s1) == (old(self).apple.x, old(self).apple.y);
                let tail = old(self).snake.body@[old(self).snake.length - 1];
                &&& final(self).snake.direction == s1.direction
                &&& !ate ==> {
                    &&& final(self).status is Running
                    &&& final(self).snake.body@ == moved
                    &&& final(self).snake.length == old(self).snake.length
                    &&& final(self).apple == old(self).apple
                    &&& final(self).last_update == now
                }
                &&& ate && old(self).snake.length < NUM_LEDS - 1 ==> {
                    &&& final(self).status is Running
                    &&& final(self).snake.body@ == moved.update(
                        old(self).snake.length as int,
                        tail,
                    )
                    &&& final(self).snake.length == old(self).snake.length + 1
                    &&& final(self).last_update == now
                    &&& final(self).apple.x < BOARD_SIZE
                    &&& final(self).apple.y < BOARD_SIZE
                    &&& !final(self).snake.occupies_cell(
                        final(self).apple.x as int,
                        final(self).apple.y as int,
                    )
                    &&& exists|k: int|
                        {
                            &&& 0 <= k < NUM_LEDS
                            &&& (final(self).apple.x as int, final(self).apple.y as int)
                                == #[trigger] probe(now, k)
                            &&& forall|j: int|
                                0 <= j < k ==> !probe_free(final(self).snake, now, j)
                        }
                }
                &&& ate && old(self).snake.length == NUM_LEDS - 1 ==> {
                    &&& final(self).status is Terminated
                    &&& final(self).snake.body@ == moved.update(
                        old(self).snake.length as int,
                        tail,
                    )
                    &&& final(self).snake.length == old(self).snake.length + 1
                    &&& final(self).apple == old(self).apple
                    &&& final(self).last_update == old(self).last_update
                }
                &&& ate && old(self).snake.length >= NUM_LEDS ==> {
                    &&& final(self).status is Terminated
                    &&& final(self).snake.body@ == moved
                    &&& final(self).snake.length == old(self).snake.length
                    &&& final(self).apple == old(self).apple
                    &&& final(self).last_update == old(self).last_update
                }
            },
    {
        if self.status == GameStatus::Terminated {
            return false;
        }
        if self.snake.check_colision() {
            self.status = GameStatus::Terminated;
            return true;
        }
        let d = read_joystick(raw_x, raw_y, self.snake.direction);
        self.snake.direction = d;
        if now - self.last_update >= move_interval {
            let ghost s1 = self.snake;
            let tail = self.snake.body[self.snake.length - 1];
            if !self.snake.move_snake() {
                self.status = GameStatus::Terminated;
                return true;
            }
            let head = self.snake.body[0];
            if head.0 == self.apple.x && head.1 == self.apple.y {
                if self.snake.length >= NUM_LEDS {
                    self.status = GameStatus::Terminated;
                    return true;
                }
                proof {
                    lemma_grown_stays_apart(
                        old(self).snake,
                        s1,
                        self.snake,
                        tail,
                        (old(self).apple.x, old(self).apple.y),
                    );
                }
                self.snake.grow(tail);
                proof {
                    lemma_grown_wf(s1, *old(self), self.snake, tail);
                }
                if self.snake.length < NUM_LEDS {
                    self.apple.spawn_apple(&self.snake, now);
                } else {
                    self.status = GameStatus::Terminated;
                    return true;
                }
            } else {
                proof {
                    lemma_moved_keeps_apple_free(
                        old(self).snake,
                        s1,
                        self.snake,
                        (old(self).apple.x, old(self).apple.y),
                    );
                }
            }
            self.last_update = now;
        }
        false
    }

    /// Color owed to the LED at strip index `idx` once the first `n` snake
    /// segments are overlaid on the apple and the background.
    pub open spec fn frame_color_upto(self, idx: int, n: int) -> Rgb {
        if exists|i: int|
            0 <= i < n && in_bounds(
                (#[trigger] self.snake.body@[i]).0 as int,
                self.snake.body@[i].1 as int,
            ) && pos_to_index_spec(
                self.snake.body@[i].0 as int,
                self.snake.body@[i].1 as int,
            ) == idx {
            snake_color()
        } else if pos_to_index_spec(self.apple.x as int, self.apple.y as int) == idx {
            apple_color()
        } else {
            background_color()
        }
    }

    /// Color owed to the LED at strip index `idx`: the snake over the apple
    /// over the background.
    pub open spec fn frame_color(self, idx: int) -> Rgb {
        self.frame_color_upto(idx, self.snake.length as int)
    }

    /// Rebuild the display buffer from scratch, in physical wiring order:
    /// background everywhere, the apple's cell over it, every on-grid snake
    /// segment over both.
    #[verifier::loop_isolation(false)]
    pub fn render(&self) -> (frame: Vec<Rgb>)
        requires
            self.snake.length <= self.snake.body@.len(),
            self.apple.x < BOARD_SIZE,
            self.apple.y < BOARD_SIZE,
        ensures
            frame@.len() == NUM_LEDS,
            forall|idx: int| 0 <= idx < NUM_LEDS ==> frame@[idx] == self.frame_color(idx),
    {
        let mut frame: Vec<Rgb> = Vec::new();
        let mut i: usize = 0;
        while i < NUM_LEDS
            invariant
                i <= NUM_LEDS,
                frame@.len() == i,
                forall|j: int| 0 <= j < i ==> frame@[j] == background_color(),
            decreases NUM_LEDS - i,
        {
            frame.push(Rgb { r: 0, g: 0, b: 0 });
            i += 1;
        }
        let ai = pos_to_index(self.apple.x, self.apple.y);
        frame[ai] = Rgb { r: 255, g: 0, b: 0 };
        let mut s: usize = 0;
        while s < self.snake.length
            invariant
                s <= self.snake.length,
                frame@.len() == NUM_LEDS,
                forall|idx: int|
                    0 <= idx < NUM_LEDS ==> frame@[idx] == self.frame_color_upto(idx, s as int),
            decreases self.snake.length - s,
        {
            let c = self.snake.body[s];
            let ghost prev = frame@;
            if c.0 < BOARD_SIZE && c.1 < BOARD_SIZE {
                let pi = pos_to_index(c.0, c.1);
                frame[pi] = Rgb { r: 0, g: 128, b: 0 };
            }
            proof {
                assert forall|idx: int| 0 <= idx < NUM_LEDS implies frame@[idx]
                    == self.frame_color_upto(idx, s + 1) by {
                    let cb = self.snake.body@[s as int];
                    if in_bounds(cb.0 as int, cb.1 as int) && pos_to_index_spec(
                        cb.0 as int,
                        cb.1 as int,
                    ) == idx {
                        assert(frame@[idx] == snake_color());
                    } else {
                        assert(frame@[idx] == prev[idx]);
                        assert(self.frame_color_upto(idx, s + 1) == self.frame_color_upto(
                            idx,
                            s as int,
                        ));
                    }
                }
            }
            s += 1;
        }
        frame
    }
}

/// After a successful move of the steered snake `s1` onto a cell other than
/// the apple's, the apple stays off the snake.
proof fn lemma_moved_keeps_apple_free(pre: Snake, s1: Snake, post: Snake, apple: (usize, usize))
    requires
        pre.wf(),
        s1.body == pre.body,
        s1.length == pre.length,
        s1.advance_ok(),
        !pre.occupies_cell(apple.0 as int, apple.1 as int),
        post.length == s1.length,
        post.body@ == s1.shifted().update(0, stepped_head(s1)),
        stepped_head(s1) != apple,
    ensures
        !post.occupies_cell(apple.0 as int, apple.1 as int),
{
    assert forall|i: int| 0 <= i < post.length implies !((#[trigger] post.body@[i]).0 == apple.0
        && post.body@[i].1 == apple.1) by {
        if i == 0 {
            assert(post.body@[0] == stepped_head(s1));
        } else {
            assert(post.body@[i] == pre.body@[i - 1]);
        }
    }
}

/// The cell the old tail vacated is distinct from every cell of the moved
/// snake when the move landed on the apple: the apple was off the old body,
/// and the vacated tail cell was on it.
proof fn lemma_grown_stays_apart(pre: Snake, s1: Snake, post: Snake, tail: (usize, usize), apple: (
    usize,
    usize,
))
    requires
        pre.wf(),
        s1.body == pre.body,
        s1.length == pre.length,
        s1.advance_ok(),
        !pre.occupies_cell(apple.0 as int, apple.1 as int),
        post.length == s1.length,
        post.body@ == s1.shifted().update(0, stepped_head(s1)),
        stepped_head(s1) == apple,
        tail == pre.body@[pre.length - 1],
    ensures
        forall|i: int| 0 <= i < post.length ==> #[trigger] post.body@[i] != tail,
{
    assert forall|i: int| 0 <= i < post.length implies #[trigger] post.body@[i] != tail by {
        if i == 0 {
            assert(post.body@[0] == apple);
            assert(!(pre.body@[pre.length - 1].0 == apple.0 && pre.body@[pre.length - 1].1
                == apple.1));
        } else {
            assert(post.body@[i] == pre.body@[i - 1]);
        }
    }
}

/// Appending the vacated tail cell to a well-formed moved snake keeps the
/// snake well-formed, provided that cell is off the moved body.
proof fn lemma_grown_wf(s1: Snake, pre_game: Game, grown: Snake, tail: (usize, usize))
    requires
        pre_game.status is Running,
        pre_game.wf(),
        s1.body == pre_game.snake.body,
        s1.length == pre_game.snake.length,
        s1.advance_ok(),
        tail == pre_game.snake.body@[pre_game.snake.length - 1],
        stepped_head(s1) == (pre_game.apple.x, pre_game.apple.y),
        grown.length == s1.length + 1,
        grown.length <= NUM_LEDS,
        grown.body@ == s1.shifted().update(0, stepped_head(s1)).update(s1.length as int, tail),
    ensures
        grown.wf(),
{
    let pre = pre_game.snake;
    let moved = s1.shifted().update(0, stepped_head(s1));
    assert forall|i: int| 0 <= i < grown.length implies in_bounds(
        (#[trigger] grown.body@[i]).0 as int,
        grown.body@[i].1 as int,
    ) by {
        if i == 0 {
            assert(grown.body@[0] == stepped_head(s1));
        } else if i < s1.length {
            assert(grown.body@[i] == pre.body@[i - 1]);
        } else {
            assert(grown.body@[i] == tail);
        }
    }
    assert forall|i: int, j: int| 0 <= i < j < grown.length implies grown.body@[i]
        != grown.body@[j] by {
        if j < s1.length {
            if i == 0 {
                assert(!(s1.shifted()[j].0 == s1.target().0 && s1.shifted()[j].1
                    == s1.target().1));
                assert(grown.body@[j] == pre.body@[j - 1]);
            } else {
                assert(grown.body@[i] == pre.body@[i - 1]);
                assert(grown.body@[j] == pre.body@[j - 1]);
            }
        } else {
            assert(grown.body@[j] == tail);
            if i == 0 {
                assert(grown.body@[0] == (pre_game.apple.x, pre_game.apple.y));
                assert(!(pre.body@[pre.length - 1].0 == pre_game.apple.x && pre.body@[pre.length
                    - 1].1 == pre_game.apple.y));
            } else {
                assert(grown.body@[i] == pre.body@[i - 1]);
            }
        }
    }
}

} // verus!

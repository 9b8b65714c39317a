//! The snake entity: an ordered body of grid cells backed by a fixed-capacity
//! buffer, a heading, and the movement and collision operations on them.

use vstd::prelude::*;
use crate::grid::{BOARD_SIZE, NUM_LEDS, in_bounds};

verus! {

/// Heading of the snake.
#[derive(Clone, Copy, PartialEq, Eq, Structural, Debug)]
pub enum Direction {
    UP,
    DOWN,
    LEFT,
    RIGHT,
}

/// Unit cell delta `(d_row, d_col)` of a heading.
pub open spec fn delta(d: Direction) -> (int, int) {
    match d {
        Direction::UP => (-1, 0),
        Direction::DOWN => (1, 0),
        Direction::LEFT => (0, -1),
        Direction::RIGHT => (0, 1),
    }
}

/// The snake. `body` is a buffer of fixed capacity `NUM_LEDS`; only the
/// prefix `body[0..length]` is occupied, with the head at index 0 and the
/// tail at index `length - 1`.
pub struct Snake {
    pub body: Vec<(usize, usize)>,
    pub length: usize,
    pub direction: Direction,
}

impl Snake {
    /// The snake occupies cell `(row, col)`.
    pub open spec fn occupies_cell(self, row: int, col: int) -> bool {
        exists|i: int|
            0 <= i < self.length && self.body@[i].0 == row && self.body@[i].1 == col
    }

    /// Well-formed: full backing buffer, at least one segment, every occupied
    /// segment on the grid, and no two occupied segments on the same cell.
    pub open spec fn wf(self) -> bool {
        &&& self.body@.len() == NUM_LEDS
        &&& 1 <= self.length <= NUM_LEDS
        &&& forall|i: int|
            0 <= i < self.length ==> in_bounds(
                #[trigger] self.body@[i].0 as int,
                self.body@[i].1 as int,
            )
        &&& forall|i: int, j: int|
            0 <= i < j < self.length ==> self.body@[i] != self.body@[j]
    }

    /// The head cell.
    pub open spec fn head(self) -> (usize, usize) {
        self.body@[0]
    }

    /// The cell the head is about to move onto: head plus the heading's delta.
    pub open spec fn target(self) -> (int, int) {
        (self.head().0 + delta(self.direction).0, self.head().1 + delta(self.direction).1)
    }

    /// The body buffer after every occupied segment is shifted one slot toward
    /// the tail: slot 0 keeps the old head, slot `i` (for `1 <= i < length`)
    /// takes the old slot `i - 1`, and the unoccupied suffix is untouched.
    pub open spec fn shifted(self) -> Seq<(usize, usize)> {
        Seq::new(
            self.body@.len(),
            |i: int|
                if 1 <= i < self.length {
                    self.body@[i - 1]
                } else {
                    self.body@[i]
                },
        )
    }

    /// The target cell lies on the grid.
    pub open spec fn target_in_bounds(self) -> bool {
        in_bounds(self.target().0, self.target().1)
    }

    /// The target cell coincides with an occupied slot of the post-shift body.
    pub open spec fn target_blocked(self) -> bool {
        exists|i: int|
            0 <= i < self.length && (#[trigger] self.shifted()[i]).0 == self.target().0
                && self.shifted()[i].1 == self.target().1
    }

    /// A movement step succeeds: the target is on the grid and free.
    pub open spec fn advance_ok(self) -> bool {
        self.target_in_bounds() && !self.target_blocked()
    }

    /// A fresh snake of length 1 at `start`, heading `direction`.
    pub fn new(direction: Direction, start: (usize, usize)) -> (s: Snake)
        requires
            start.0 < BOARD_SIZE,
            start.1 < BOARD_SIZE,
        ensures
            s.wf(),
            s.length == 1,
            s.direction == direction,
            s.body@[0] == start,
    {
        let mut body: Vec<(usize, usize)> = Vec::new();
        body.push(start);
        let mut i: usize = 1;
        while i < NUM_LEDS
            invariant
                1 <= i <= NUM_LEDS,
                body@.len() == i,
                body@[0] == start,
            decreases NUM_LEDS - i,
        {
            body.push((0, 0));
            i += 1;
        }
        Snake { body, length: 1, direction }
    }

    /// True iff some occupied segment sits on `(row, col)`.
    pub fn occupies(&self, row: usize, col: usize) -> (r: bool)
        requires
            self.length <= self.body@.len(),
        ensures
            r == self.occupies_cell(row as int, col as int),
    {
        let mut i: usize = 0;
        while i < self.length
            invariant
                i <= self.length,
                self.length <= self.body@.len(),
                forall|j: int|
                    0 <= j < i ==> !((#[trigger] self.body@[j]).0 == row && self.body@[j].1
                        == col),
            decreases self.length - i,
        {
            let c = self.body[i];
            if c.0 == row && c.1 == col {
                return true;
            }
            i += 1;
        }
        false
    }

    /// The heading's unit delta as `(d_row, d_col)`.
    pub fn direction_to_delta(&self) -> (d: (isize, isize))
        ensures
            (d.0 as int, d.1 as int) == delta(self.direction),
    {
        match self.direction {
            Direction::UP => (-1, 0),
            Direction::DOWN => (1, 0),
            Direction::LEFT => (0, -1),
            Direction::RIGHT => (0, 1),
        }
    }

    /// One movement step: shift the occupied segments one slot toward the tail
    /// (the tail cell is discarded), then try to write the target cell as the
    /// new head. Fails, leaving the head slot at its stale shifted value, when
    /// the target leaves the grid or hits the post-shift body.
    #[verifier::loop_isolation(false)]
    pub fn move_snake(&mut self) -> (ok: bool)
        requires
            old(self).wf(),
        ensures
            ok == old(self).advance_ok(),
            final(self).length == old(self).length,
            final(self).direction == old(self).direction,
            ok ==> final(self).body@ == old(self).shifted().update(
                0,
                (old(self).target().0 as usize, old(self).target().1 as usize),
            ),
            ok ==> (final(self).head().0 as int, final(self).head().1 as int) == old(
                self,
            ).target(),
            ok ==> final(self).wf(),
            !ok ==> final(self).body@ == old(self).shifted(),
    {
        let ghost pre = *self;
        let mut i: usize = self.length;
        while i > 1
            invariant
                1 <= i <= pre.length,
                pre.wf(),
                self.length == pre.length,
                self.direction == pre.direction,
                self.body@.len() == pre.body@.len(),
                forall|j: int| 0 <= j < i ==> self.body@[j] == pre.body@[j],
                forall|j: int| i <= j < pre.length ==> self.body@[j] == pre.body@[j - 1],
                forall|j: int|
                    pre.length <= j < self.body@.len() ==> self.body@[j] == pre.body@[j],
            decreases i,
        {
            i -= 1;
            let prev = self.body[i - 1];
            self.body[i] = prev;
        }
        assert(self.body@ =~= pre.shifted());

        let head = self.body[0];
        let d = self.direction_to_delta();
        let new_row = head.0 as isize + d.0;
        let new_col = head.1 as isize + d.1;
        if new_row < 0 || new_row >= BOARD_SIZE as isize || new_col < 0 || new_col
            >= BOARD_SIZE as isize {
            return false;
        }
        let new_pos = (new_row as usize, new_col as usize);

        let mut k: usize = 0;
        while k < self.length
            invariant
                k <= self.length,
                pre.wf(),
                self.length == pre.length,
                self.direction == pre.direction,
                self.body@ == pre.shifted(),
                new_pos.0 as int == pre.target().0,
                new_pos.1 as int == pre.target().1,
                pre.target_in_bounds(),
                forall|j: int|
                    0 <= j < k ==> !((#[trigger] pre.shifted()[j]).0 == new_pos.0
                        && pre.shifted()[j].1 == new_pos.1),
            decreases self.length - k,
        {
            let c = self.body[k];
            if c.0 == new_pos.0 && c.1 == new_pos.1 {
                assert(pre.target_blocked());
                return false;
            }
            k += 1;
        }
        assert(!pre.target_blocked());

        self.body[0] = new_pos;
        assert(self.body@ =~= pre.shifted().update(
            0,
            (pre.target().0 as usize, pre.target().1 as usize),
        ));
        proof {
            lemma_advanced_wf(pre, *self);
        }
        true
    }

    /// Append a tail segment holding `tail` (the cell the old tail vacated on
    /// the preceding movement step) and lengthen the snake by one.
    pub fn grow(&mut self, tail: (usize, usize))
        requires
            old(self).length < NUM_LEDS,
            old(self).body@.len() == NUM_LEDS,
        ensures
            final(self).length == old(self).length + 1,
            final(self).direction == old(self).direction,
            final(self).body@ == old(self).body@.update(old(self).length as int, tail),
            final(self).body@[old(self).length as int] == tail,
    {
        let idx = self.length;
        self.body[idx] = tail;
        self.length = self.length + 1;
    }

    /// The head has left the grid or re-entered another occupied segment.
    pub open spec fn colliding_spec(self) -> bool {
        ||| !in_bounds(self.head().0 as int, self.head().1 as int)
        ||| exists|i: int| 1 <= i < self.length && #[trigger] self.body@[i] == self.head()
    }

    /// Authoritative collision check: true iff the head is off the grid or
    /// coincides with another occupied segment.
    pub fn check_colision(&self) -> (r: bool)
        requires
            1 <= self.length <= self.body@.len(),
        ensures
            r == self.colliding_spec(),
    {
        let head = self.body[0];
        if head.0 >= BOARD_SIZE || head.1 >= BOARD_SIZE {
            return true;
        }
        let mut i: usize = 1;
        while i < self.length
            invariant
                1 <= i <= self.length,
                self.length <= self.body@.len(),
                head == self.head(),
                forall|j: int| 1 <= j < i ==> #[trigger] self.body@[j] != self.head(),
            decreases self.length - i,
        {
            let c = self.body[i];
            if c.0 == head.0 && c.1 == head.1 {
                return true;
            }
            i += 1;
        }
        false
    }
}

/// A successful movement step preserves well-formedness: the new head is on
/// the grid and distinct from every shifted segment, and the shifted segments
/// keep the old body's bounds and distinctness.
proof fn lemma_advanced_wf(pre: Snake, post: Snake)
    requires
        pre.wf(),
        pre.advance_ok(),
        post.length == pre.length,
        post.body@ == pre.shifted().update(
            0,
            (pre.target().0 as usize, pre.target().1 as usize),
        ),
    ensures
        post.wf(),
{
    let t = (pre.target().0 as usize, pre.target().1 as usize);
    assert forall|i: int| 0 <= i < post.length implies in_bounds(
        #[trigger] post.body@[i].0 as int,
        post.body@[i].1 as int,
    ) by {
        if i > 0 {
            assert(post.body@[i] == pre.body@[i - 1]);
        }
    }
    assert forall|i: int, j: int| 0 <= i < j < post.length implies post.body@[i]
        != post.body@[j] by {
        if i == 0 {
            assert(pre.shifted()[j] == pre.body@[j - 1]);
            assert(!(pre.shifted()[j].0 == pre.target().0 && pre.shifted()[j].1
                == pre.target().1));
        } else {
            assert(post.body@[i] == pre.body@[i - 1]);
            assert(post.body@[j] == pre.body@[j - 1]);
        }
    }
}

} // verus!

//! The apple entity: a single grid cell, relocated by a deterministic
//! pseudo-random probe sequence that never lands on the snake.

use vstd::prelude::*;
use vstd::arithmetic::div_mod::{
    lemma_fundamental_div_mod, lemma_mod_breakdown, lemma_mod_multiples_vanish,
};
use vstd::pervasive::unreached;
use vstd::set_lib::lemma_len_subset;
use crate::grid::{BOARD_SIZE, NUM_LEDS};
use crate::snake::Snake;

verus! {

/// Stride added to the probe value after a hit; odd and co-prime to the cell
/// count, so that successive probes walk every cell of the grid.
pub const PROBE_STRIDE: u64 = 27;

/// The apple: a single grid cell `(x, y)` as `(row, col)`.
pub struct Apple {
    pub x: usize,
    pub y: usize,
}

/// The `k`-th cell probed when respawning from `seed`: the probe value is
/// `seed + PROBE_STRIDE * k`, read as a cell through `value mod N` (row) and
/// `(value / N) mod N` (col).
pub open spec fn probe(seed: u64, k: int) -> (int, int) {
    let a = seed + PROBE_STRIDE * k;
    (a % (BOARD_SIZE as int), (a / (BOARD_SIZE as int)) % (BOARD_SIZE as int))
}

/// The `k`-th probed cell is not occupied by the snake.
pub open spec fn probe_free(snake: Snake, seed: u64, k: int) -> bool {
    !snake.occupies_cell(probe(seed, k).0, probe(seed, k).1)
}

/// Distinct probe indices below `NUM_LEDS` reach distinct cells: the stride
/// is co-prime to the cell count, so the first `NUM_LEDS` probes walk the
/// whole grid.
proof fn lemma_probe_distinct(seed: u64, k1: int, k2: int)
    requires
        0 <= k1 < k2 < NUM_LEDS,
    ensures
        probe(seed, k1) != probe(seed, k2),
{
    let n = BOARD_SIZE as int;
    let a1 = seed + PROBE_STRIDE * k1;
    let a2 = seed + PROBE_STRIDE * k2;
    let d = k2 - k1;
    if probe(seed, k1) == probe(seed, k2) {
        lemma_mod_breakdown(a1, n, n);
        lemma_mod_breakdown(a2, n, n);
        assert(a1 % 25 == a2 % 25);
        assert(a2 == 25 * d + (a1 + 2 * d));
        lemma_mod_multiples_vanish(d, a1 + 2 * d, 25);
        assert((a1 + 2 * d) % 25 == a1 % 25);
        lemma_fundamental_div_mod(a1 + 2 * d, 25);
        lemma_fundamental_div_mod(a1, 25);
        let q1 = a1 / 25;
        let q2 = (a1 + 2 * d) / 25;
        assert(2 * d == 25 * (q2 - q1));
        assert(0 < 2 * d < 50);
        assert(false);
    }
}

/// The set of cells reached by the first `n` probes from `seed`.
pub open spec fn probe_prefix_set(seed: u64, n: int) -> Set<(int, int)> {
    Set::new(|p: (int, int)| exists|j: int| 0 <= j < n && p == probe(seed, j))
}

/// The first `n` probes reach exactly `n` cells.
proof fn lemma_probe_prefix_card(seed: u64, n: int)
    requires
        0 <= n <= NUM_LEDS,
    ensures
        probe_prefix_set(seed, n).finite(),
        probe_prefix_set(seed, n).len() == n,
    decreases n,
{
    if n == 0 {
        assert(probe_prefix_set(seed, 0) =~= Set::<(int, int)>::empty());
    } else {
        lemma_probe_prefix_card(seed, n - 1);
        assert forall|j: int| 0 <= j < n - 1 implies #[trigger] probe(seed, j) != probe(
            seed,
            n - 1,
        ) by {
            lemma_probe_distinct(seed, j, n - 1);
        }
        assert(!probe_prefix_set(seed, n - 1).contains(probe(seed, n - 1)));
        assert(probe_prefix_set(seed, n) =~= probe_prefix_set(seed, n - 1).insert(
            probe(seed, n - 1),
        ));
    }
}

/// The set of cells occupied by the first `n` segments of the snake.
pub open spec fn occupied_prefix_set(s: Snake, n: int) -> Set<(int, int)> {
    Set::new(
        |p: (int, int)|
            exists|i: int| 0 <= i < n && s.body@[i].0 == p.0 && s.body@[i].1 == p.1,
    )
}

/// At most `n` cells are occupied by the first `n` segments.
proof fn lemma_occupied_prefix_card(s: Snake, n: int)
    requires
        0 <= n,
    ensures
        occupied_prefix_set(s, n).finite(),
        occupied_prefix_set(s, n).len() <= n,
    decreases n,
{
    if n == 0 {
        assert(occupied_prefix_set(s, 0) =~= Set::<(int, int)>::empty());
    } else {
        lemma_occupied_prefix_card(s, n - 1);
        let c = (s.body@[n - 1].0 as int, s.body@[n - 1].1 as int);
        assert(occupied_prefix_set(s, n) =~= occupied_prefix_set(s, n - 1).insert(c));
    }
}

/// Pigeonhole: a snake shorter than the board leaves at least one of the
/// first `NUM_LEDS` probed cells free, since those are `NUM_LEDS` distinct
/// cells and the snake occupies fewer.
proof fn lemma_probe_finds_free(snake: Snake, seed: u64)
    requires
        snake.length < NUM_LEDS,
    ensures
        exists|k: int| 0 <= k < NUM_LEDS && #[trigger] probe_free(snake, seed, k),
{
    if !(exists|k: int| 0 <= k < NUM_LEDS && #[trigger] probe_free(snake, seed, k)) {
        let probes = probe_prefix_set(seed, NUM_LEDS as int);
        let occupied = occupied_prefix_set(snake, snake.length as int);
        lemma_probe_prefix_card(seed, NUM_LEDS as int);
        lemma_occupied_prefix_card(snake, snake.length as int);
        assert forall|p: (int, int)| probes.contains(p) implies occupied.contains(p) by {
            let j = choose|j: int| 0 <= j < NUM_LEDS && p == probe(seed, j);
            assert(!probe_free(snake, seed, j));
            assert(snake.occupies_cell(p.0, p.1));
        }
        lemma_len_subset(probes, occupied);
    }
}

impl Apple {
    /// A fresh apple at `start`.
    pub fn new(start: (usize, usize)) -> (a: Apple)
        ensures
            a.x == start.0,
            a.y == start.1,
    {
        Apple { x: start.0, y: start.1 }
    }

    /// Relocate the apple: probe cells from `seed`, stepping by
    /// `PROBE_STRIDE` on each hit, and settle on the first cell the snake
    /// does not occupy. Deterministic in `seed` and the snake's body.
    ///
    /// The seed bound leaves headroom for the probe strides; it is met by any
    /// realistic tick counter (counter wraparound is not handled, as the
    /// tick source is taken to be monotonic within a run).
    #[verifier::loop_isolation(false)]
    pub fn spawn_apple(&mut self, snake: &Snake, seed: u64) -> (pos: (usize, usize))
        requires
            snake.length <= snake.body@.len(),
            snake.length < NUM_LEDS,
            seed + PROBE_STRIDE * NUM_LEDS <= u64::MAX,
        ensures
            final(self).x == pos.0,
            final(self).y == pos.1,
            pos.0 < BOARD_SIZE,
            pos.1 < BOARD_SIZE,
            !snake.occupies_cell(pos.0 as int, pos.1 as int),
            exists|k: int|
                {
                    &&& 0 <= k < NUM_LEDS
                    &&& (pos.0 as int, pos.1 as int) == #[trigger] probe(seed, k)
                    &&& forall|j: int| 0 <= j < k ==> !probe_free(*snake, seed, j)
                },
    {
        let mut attempt: u64 = seed;
        let mut k: usize = 0;
        while k < NUM_LEDS
            invariant
                k <= NUM_LEDS,
                attempt == seed + PROBE_STRIDE * k,
                forall|j: int| 0 <= j < k ==> !probe_free(*snake, seed, j),
                self == old(self),
            decreases NUM_LEDS - k,
        {
            let row = (attempt % (BOARD_SIZE as u64)) as usize;
            let col = ((attempt / (BOARD_SIZE as u64)) % (BOARD_SIZE as u64)) as usize;
            assert((row as int, col as int) == probe(seed, k as int));
            if !snake.occupies(row, col) {
                self.x = row;
                self.y = col;
                return (row, col);
            }
            attempt = attempt + PROBE_STRIDE;
            k += 1;
        }
        proof {
            lemma_probe_finds_free(*snake, seed);
            let kf = choose|kf: int| 0 <= kf < NUM_LEDS && probe_free(*snake, seed, kf);
            assert(!probe_free(*snake, seed, kf));
        }
        unreached()
    }
}

} // verus!

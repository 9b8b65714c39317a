//! The fixed game grid and the serpentine (boustrophedon) map from a
//! logical `(row, col)` cell to the physical index of its LED on the strip.

use vstd::prelude::*;

verus! {

/// Side length of the square grid.
pub const BOARD_SIZE: usize = 5;

/// Number of cells, and of LEDs on the strip.
pub const NUM_LEDS: usize = BOARD_SIZE * BOARD_SIZE;

/// A cell lies on the grid.
pub open spec fn in_bounds(row: int, col: int) -> bool {
    0 <= row < BOARD_SIZE && 0 <= col < BOARD_SIZE
}

/// Physical strip index of cell `(row, col)`: rows are wired bottom-up and
/// alternate scan direction, the first wired row running right to left.
pub open spec fn pos_to_index_spec(row: int, col: int) -> int {
    let r = BOARD_SIZE - 1 - row;
    if r % 2 == 0 {
        r * BOARD_SIZE + (BOARD_SIZE - 1 - col)
    } else {
        r * BOARD_SIZE + col
    }
}

/// Logical cell of the LED at strip index `idx`; inverse of `pos_to_index_spec`.
pub open spec fn index_to_pos_spec(idx: int) -> (int, int) {
    let r = idx / (BOARD_SIZE as int);
    let row = BOARD_SIZE - 1 - r;
    let col = if r % 2 == 0 {
        BOARD_SIZE - 1 - idx % (BOARD_SIZE as int)
    } else {
        idx % (BOARD_SIZE as int)
    };
    (row, col)
}

/// Maps a grid cell to the index of its LED on the serpentine-wired strip.
pub fn pos_to_index(row: usize, col: usize) -> (idx: usize)
    requires
        row < BOARD_SIZE,
        col < BOARD_SIZE,
    ensures
        idx == pos_to_index_spec(row as int, col as int),
        idx < NUM_LEDS,
{
    let r = BOARD_SIZE - 1 - row;
    if r % 2 == 0 {
        r * BOARD_SIZE + (BOARD_SIZE - 1 - col)
    } else {
        r * BOARD_SIZE + col
    }
}

/// The serpentine map sends every grid cell into `[0, NUM_LEDS)` and is
/// inverted there by `index_to_pos_spec`; with `lemma_index_to_pos_roundtrip`
/// this makes it a bijection from the grid onto `[0, NUM_LEDS)`.
pub proof fn lemma_pos_to_index_roundtrip(row: int, col: int)
    requires
        in_bounds(row, col),
    ensures
        0 <= pos_to_index_spec(row, col) < NUM_LEDS,
        index_to_pos_spec(pos_to_index_spec(row, col)) == (row, col),
{
    let r = BOARD_SIZE - 1 - row;
    let off = if r % 2 == 0 { BOARD_SIZE - 1 - col } else { col };
    let idx = r * (BOARD_SIZE as int) + off;
    assert(0 <= off < BOARD_SIZE);
    assert(idx / (BOARD_SIZE as int) == r && idx % (BOARD_SIZE as int) == off) by (nonlinear_arith)
        requires
            0 <= r < BOARD_SIZE,
            0 <= off < BOARD_SIZE,
            idx == r * (BOARD_SIZE as int) + off,
            BOARD_SIZE == 5,
    ;
}

/// Every strip index in `[0, NUM_LEDS)` is the image of exactly the grid cell
/// `index_to_pos_spec` names: the serpentine map is onto `[0, NUM_LEDS)`.
pub proof fn lemma_index_to_pos_roundtrip(idx: int)
    requires
        0 <= idx < NUM_LEDS,
    ensures
        in_bounds(index_to_pos_spec(idx).0, index_to_pos_spec(idx).1),
        pos_to_index_spec(index_to_pos_spec(idx).0, index_to_pos_spec(idx).1) == idx,
{
    let r = idx / (BOARD_SIZE as int);
    let off = idx % (BOARD_SIZE as int);
    assert(0 <= r < BOARD_SIZE && 0 <= off < BOARD_SIZE && idx == r * (BOARD_SIZE as int) + off)
        by (nonlinear_arith)
        requires
            0 <= idx < NUM_LEDS,
            r == idx / (BOARD_SIZE as int),
            off == idx % (BOARD_SIZE as int),
            BOARD_SIZE == 5,
            NUM_LEDS == 25,
    ;
}

/// The serpentine map is injective: two grid cells with the same strip index
/// are the same cell.
pub proof fn lemma_pos_to_index_injective(r1: int, c1: int, r2: int, c2: int)
    requires
        in_bounds(r1, c1),
        in_bounds(r2, c2),
        pos_to_index_spec(r1, c1) == pos_to_index_spec(r2, c2),
    ensures
        r1 == r2 && c1 == c2,
{
    lemma_pos_to_index_roundtrip(r1, c1);
    lemma_pos_to_index_roundtrip(r2, c2);
}

} // verus!

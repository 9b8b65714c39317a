//! The joystick interpreter: maps two raw analog axis samples to a heading,
//! with a deadzone near both ends of the range and hold-last-direction
//! semantics in between.

use vstd::prelude::*;
use crate::snake::Direction;

verus! {

/// Width of the deadzone at each end of the sample range.
pub const DEADZONE: u16 = 50;

/// One past the largest sample the analog source can deliver.
pub const ADC_MAX: u16 = 4096;

/// Heading chosen for raw samples `(x, y)`, holding `current` when neither
/// axis is pushed out of its deadzone. The Y axis is checked before the X
/// axis, so Y wins under diagonal input.
pub open spec fn joystick_spec(x: u16, y: u16, current: Direction) -> Direction {
    if y >= ADC_MAX - DEADZONE {
        Direction::UP
    } else if y <= DEADZONE {
        Direction::DOWN
    } else if x >= ADC_MAX - DEADZONE {
        Direction::RIGHT
    } else if x <= DEADZONE {
        Direction::LEFT
    } else {
        current
    }
}

/// Interprets two raw joystick samples as a heading. A reversal into the
/// snake's own neck is allowed here; the following movement step reports it
/// as a collision.
pub fn read_joystick(x: u16, y: u16, current: Direction) -> (d: Direction)
    ensures
        d == joystick_spec(x, y, current),
{
    if y >= ADC_MAX - DEADZONE {
        Direction::UP
    } else if y <= DEADZONE {
        Direction::DOWN
    } else if x >= ADC_MAX - DEADZONE {
        Direction::RIGHT
    } else if x <= DEADZONE {
        Direction::LEFT
    } else {
        current
    }
}

/// Y-axis priority: a Y sample within `DEADZONE` of either end of the range
/// fixes the heading by itself, whatever the X sample reads.
pub proof fn lemma_joystick_y_priority(x: u16, y: u16, current: Direction)
    ensures
        y >= ADC_MAX - DEADZONE ==> joystick_spec(x, y, current) == Direction::UP,
        y <= DEADZONE ==> joystick_spec(x, y, current) == Direction::DOWN,
{
}

} // verus!

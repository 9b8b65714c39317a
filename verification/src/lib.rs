//! Core logic of a snake game on a fixed N x N grid rendered on a
//! serpentine-wired addressable LED matrix.
//!
//! The library holds everything that can be stated and proved: the
//! logical-to-physical coordinate map, the snake and apple entities,
//! the joystick interpreter, and the per-iteration game state machine.
//! Platform glue (ADC sampling, LED transmission, the tick source and
//! the fault indicator) lives outside and hands the library plain values.

pub mod apple;
pub mod game;
pub mod grid;
pub mod input;
pub mod snake;

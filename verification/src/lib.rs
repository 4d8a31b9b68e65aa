//! A verified CHIP-8 virtual machine engine.
//!
//! The engine models the classic 8-bit interpreted machine: 4 KB of memory,
//! sixteen general registers, a call stack, a 64x32 monochrome display, two
//! countdown timers and a 16-key keypad. Every state transition (instruction
//! execution, timer ticks, ROM loading) is specified against a mathematical
//! view of the machine and proved to match it.

use vstd::prelude::*;

pub mod draw;
pub mod font;
pub mod laws;
pub mod machine;
pub mod step;

mod rng;

pub use machine::{Chipst8, ChipView, Quirks, LoadError};
pub use step::{Effect, Fault};

verus! {

/// Width of the display in pixels.
pub const SCREEN_WIDTH: usize = 64;

/// Height of the display in pixels.
pub const SCREEN_HEIGHT: usize = 32;

} // verus!

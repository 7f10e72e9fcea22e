//! A verified CHIP-8 virtual-machine core.
//!
//! The machine owns all interpreter state (memory, registers, stack, timers,
//! framebuffer, key latch) and exposes a fetch-decode-execute step that
//! advances that state by exactly one instruction. Every instruction's
//! effect is stated against a mathematical model of the machine and proved.

use vstd::prelude::*;

pub mod emu;
pub mod instr;
pub mod laws;
pub mod semantics;
pub mod view;

pub use emu::Emu;

verus! {

/// Width of the monochrome framebuffer in pixels.
pub const SCREEN_WIDTH: usize = 64;

/// Height of the monochrome framebuffer in pixels.
pub const SCREEN_HEIGHT: usize = 32;

} // verus!

//! The mathematical model of the machine: a record of sequences and scalars
//! that every contract speaks of, together with the built-in font table and
//! the initial (reset) state.

use vstd::prelude::*;

use crate::SCREEN_HEIGHT;
use crate::SCREEN_WIDTH;

verus! {

/// Number of addressable memory bytes.
pub const RAM_SIZE: usize = 4096;

/// Capacity of the return-address stack.
pub const STACK_SIZE: usize = 16;

/// Number of keys in the input latch.
pub const NUM_KEYS: usize = 16;

/// Number of general registers (`V0`..`VF`).
pub const NUM_REGS: usize = 16;

/// Address at which a loaded program begins, and the initial program counter.
pub const START_ADDR: u16 = 0x200;

/// Number of bytes the font table occupies at the bottom of memory.
pub const FONTSET_SIZE: usize = 80;

/// The abstract state of the machine.
///
/// The stack is modelled as the live sequence of return addresses alone: its
/// length is the stack depth, the last element the most recent return
/// address. The framebuffer is a flattened row-major grid, pixel `(x, y)` at
/// index `x + 64 * y`.
pub struct EmuView {
    /// Program counter: address of the next instruction to fetch.
    pub pc: u16,
    /// The 4096-byte memory.
    pub ram: Seq<u8>,
    /// The 64 x 32 framebuffer, flattened row-major.
    pub screen: Seq<bool>,
    /// The sixteen 8-bit general registers; index 15 is the flag register.
    pub v: Seq<u8>,
    /// The 16-bit index register.
    pub i: u16,
    /// The live return-address stack, deepest entry first.
    pub stack: Seq<u16>,
    /// The sixteen key states of the input latch.
    pub keys: Seq<bool>,
    /// The delay timer.
    pub dt: u8,
    /// The sound timer.
    pub st: u8,
}

impl EmuView {
    /// Every buffer has its fixed size and the stack is within capacity.
    pub open spec fn wf(self) -> bool {
        &&& self.ram.len() == RAM_SIZE
        &&& self.screen.len() == SCREEN_WIDTH * SCREEN_HEIGHT
        &&& self.v.len() == NUM_REGS
        &&& self.stack.len() <= STACK_SIZE
        &&& self.keys.len() == NUM_KEYS
    }
}

/// The font table: sixteen 5-byte sprites, one per hexadecimal digit, so
/// that digit `d`'s sprite starts at address `5 * d`.
pub open spec fn font() -> Seq<u8> {
    seq![
        0xF0u8, 0x90, 0x90, 0x90, 0xF0,
        0x20, 0x60, 0x20, 0x20, 0x70,
        0xF0, 0x10, 0xF0, 0x80, 0xF0,
        0xF0, 0x10, 0xF0, 0x10, 0xF0,
        0x90, 0x90, 0xF0, 0x10, 0x10,
        0xF0, 0x80, 0xF0, 0x10, 0xF0,
        0xF0, 0x80, 0xF0, 0x90, 0xF0,
        0xF0, 0x10, 0x20, 0x40, 0x40,
        0xF0, 0x90, 0xF0, 0x90, 0xF0,
        0xF0, 0x90, 0xF0, 0x10, 0xF0,
        0xF0, 0x90, 0xF0, 0x90, 0x90,
        0xE0, 0x90, 0xE0, 0x90, 0xE0,
        0xF0, 0x80, 0x80, 0x80, 0xF0,
        0xE0, 0x90, 0x90, 0x90, 0xE0,
        0xF0, 0x80, 0xF0, 0x80, 0xF0,
        0xF0, 0x80, 0xF0, 0x80, 0x80,
    ]
}

/// The state the machine has at construction and after a reset: memory all
/// zero but for the font table at its reserved prefix, the program counter
/// at the program start address, and everything else cleared.
pub open spec fn initial_view() -> EmuView {
    EmuView {
        pc: START_ADDR,
        ram: Seq::new(RAM_SIZE as nat, |j: int| if j < FONTSET_SIZE { font()[j] } else { 0u8 }),
        screen: Seq::new((SCREEN_WIDTH * SCREEN_HEIGHT) as nat, |j: int| false),
        v: Seq::new(NUM_REGS as nat, |j: int| 0u8),
        i: 0,
        stack: Seq::empty(),
        keys: Seq::new(NUM_KEYS as nat, |j: int| false),
        dt: 0,
        st: 0,
    }
}

/// `buf` with `data` written over it starting at `start`; everything
/// outside `start .. start + data.len()` keeps its old value.
pub open spec fn write_seq(buf: Seq<u8>, start: int, data: Seq<u8>) -> Seq<u8> {
    Seq::new(buf.len(), |j: int| if start <= j < start + data.len() { data[j - start] } else { buf[j] })
}

} // verus!

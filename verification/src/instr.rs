//! Instruction words: the fault taxonomy, the decoded instruction type, and
//! the decoder from a 16-bit opcode word to a tagged instruction.
//!
//! An opcode is a 16-bit word of four 4-bit fields. Decoding matches the
//! exact tuple of fields (not a prefix), so an unmatched pattern is reported
//! as an unknown opcode rather than aliased to a related instruction.

use vstd::prelude::*;

verus! {

/// A fatal interpreter fault. The machine reports the fault and leaves its
/// state exactly as it was before the faulting step; it never continues with
/// inconsistent state.
#[derive(Clone, Copy, Debug, PartialEq, Eq)]
pub enum Fault {
    /// The fetched word matches no instruction pattern.
    UnknownOpcode,
    /// A subroutine call was made with the return stack already full.
    StackOverflow,
    /// A return was executed with the return stack empty.
    StackUnderflow,
    /// An instruction addressed memory beyond the 4096-byte store.
    MemoryOutOfBounds,
    /// A key-skip instruction named a key index outside 0..16.
    KeyOutOfRange,
}

/// A decoded instruction: one variant per row of the instruction table.
/// Register indices (`x`, `y`) are nibbles below 16, `nnn` is a 12-bit
/// address, `nn` an 8-bit immediate, and `n` a 4-bit sprite height.
#[derive(Clone, Copy, Debug, PartialEq, Eq)]
pub enum Instr {
    /// 0000: no operation.
    Nop,
    /// 00E0: clear the framebuffer.
    Cls,
    /// 00EE: pop a return address into the program counter.
    Ret,
    /// 1nnn: jump to `nnn`.
    Jmp(u16),
    /// 2nnn: push the return address, then jump to `nnn`.
    Call(u16),
    /// 3xnn: skip the next instruction if `Vx == nn`.
    SkipEqImm(u8, u8),
    /// 4xnn: skip the next instruction if `Vx != nn`.
    SkipNeImm(u8, u8),
    /// 5xy0: skip the next instruction if `Vx == Vy`.
    SkipEqReg(u8, u8),
    /// 6xnn: `Vx <- nn`.
    SetImm(u8, u8),
    /// 7xnn: `Vx <- Vx + nn` wrapping; no flag is written.
    AddImm(u8, u8),
    /// 8xy0: `Vx <- Vy`.
    Mov(u8, u8),
    /// 8xy1: `Vx <- Vx | Vy`.
    Or(u8, u8),
    /// 8xy2: `Vx <- Vx & Vy`.
    And(u8, u8),
    /// 8xy3: `Vx <- Vx ^ Vy`.
    Xor(u8, u8),
    /// 8xy4: `Vx <- Vx + Vy`; `VF` is 1 on 8-bit overflow, else 0.
    AddReg(u8, u8),
    /// 8xy5: `Vx <- Vx - Vy`; `VF` is 0 on borrow, else 1.
    SubReg(u8, u8),
    /// 8xy6: `VF <-` least bit of `Vx`, then `Vx <- Vx >> 1`.
    Shr(u8),
    /// 8xy7: `Vx <- Vy - Vx`; `VF` is 0 on borrow, else 1.
    SubFrom(u8, u8),
    /// 8xyE: `VF <-` most bit of `Vx`, then `Vx <- Vx << 1` (mod 256).
    Shl(u8),
    /// 9xy0: skip the next instruction if `Vx != Vy`.
    SkipNeReg(u8, u8),
    /// Annn: `I <- nnn`.
    SetIndex(u16),
    /// Bnnn: jump to `V0 + nnn`.
    JmpV0(u16),
    /// Cxnn: `Vx <- random byte & nn`.
    Rand(u8, u8),
    /// Dxyn: draw an 8-wide, `n`-tall sprite from memory at `I` at
    /// `(Vx, Vy)` by XOR, wrapping at the screen edges; `VF` is 1 if any
    /// set pixel was turned off, else 0.
    Draw(u8, u8, u8),
    /// Ex9E: skip the next instruction if key `Vx` is pressed.
    SkipKey(u8),
    /// ExA1: skip the next instruction if key `Vx` is not pressed.
    SkipNoKey(u8),
    /// Fx07: `Vx <- delay timer`.
    GetDelay(u8),
    /// Fx0A: wait for a key: store the lowest pressed key index in `Vx`, or
    /// rewind the program counter so the same instruction runs again.
    WaitKey(u8),
    /// Fx15: `delay timer <- Vx`.
    SetDelay(u8),
    /// Fx18: `sound timer <- Vx`.
    SetSound(u8),
    /// Fx1E: `I <- I + Vx`, wrapping at 16 bits.
    AddIndex(u8),
    /// Fx29: `I <-` address of the font sprite for digit `Vx`.
    Font(u8),
    /// Fx33: store the decimal digits of `Vx` at `I`, `I+1`, `I+2`.
    Bcd(u8),
    /// Fx55: store `V0..=Vx` into memory starting at `I`.
    StoreRegs(u8),
    /// Fx65: load memory starting at `I` into `V0..=Vx`.
    LoadRegs(u8),
}

impl Instr {
    /// Every register index carried by the instruction is below 16, every
    /// address below 4096, and every sprite height below 16, as the decoder
    /// guarantees.
    pub open spec fn wf(self) -> bool {
        match self {
            Instr::Nop | Instr::Cls | Instr::Ret => true,
            Instr::Jmp(nnn) => nnn < 4096,
            Instr::Call(nnn) => nnn < 4096,
            Instr::SkipEqImm(x, _) => x < 16,
            Instr::SkipNeImm(x, _) => x < 16,
            Instr::SkipEqReg(x, y) => x < 16 && y < 16,
            Instr::SetImm(x, _) => x < 16,
            Instr::AddImm(x, _) => x < 16,
            Instr::Mov(x, y) => x < 16 && y < 16,
            Instr::Or(x, y) => x < 16 && y < 16,
            Instr::And(x, y) => x < 16 && y < 16,
            Instr::Xor(x, y) => x < 16 && y < 16,
            Instr::AddReg(x, y) => x < 16 && y < 16,
            Instr::SubReg(x, y) => x < 16 && y < 16,
            Instr::Shr(x) => x < 16,
            Instr::SubFrom(x, y) => x < 16 && y < 16,
            Instr::Shl(x) => x < 16,
            Instr::SkipNeReg(x, y) => x < 16 && y < 16,
            Instr::SetIndex(nnn) => nnn < 4096,
            Instr::JmpV0(nnn) => nnn < 4096,
            Instr::Rand(x, _) => x < 16,
            Instr::Draw(x, y, n) => x < 16 && y < 16 && n < 16,
            Instr::SkipKey(x) => x < 16,
            Instr::SkipNoKey(x) => x < 16,
            Instr::GetDelay(x) => x < 16,
            Instr::WaitKey(x) => x < 16,
            Instr::SetDelay(x) => x < 16,
            Instr::SetSound(x) => x < 16,
            Instr::AddIndex(x) => x < 16,
            Instr::Font(x) => x < 16,
            Instr::Bcd(x) => x < 16,
            Instr::StoreRegs(x) => x < 16,
            Instr::LoadRegs(x) => x < 16,
        }
    }
}

/// What the decoder returns for each 16-bit opcode word: the instruction
/// whose exact field pattern the word matches, or `None` for an unrecognized
/// pattern.
pub open spec fn spec_decode(op: u16) -> Option<Instr> {
    let d1 = op / 0x1000;
    let x = ((op / 0x100) % 16) as u8;
    let y = ((op / 16) % 16) as u8;
    let d4 = (op % 16) as u8;
    let nnn = op % 0x1000;
    let nn = (op % 0x100) as u8;
    if op == 0x0000 {
        Some(Instr::Nop)
    } else if op == 0x00E0 {
        Some(Instr::Cls)
    } else if op == 0x00EE {
        Some(Instr::Ret)
    } else if d1 == 0x1 {
        Some(Instr::Jmp(nnn))
    } else if d1 == 0x2 {
        Some(Instr::Call(nnn))
    } else if d1 == 0x3 {
        Some(Instr::SkipEqImm(x, nn))
    } else if d1 == 0x4 {
        Some(Instr::SkipNeImm(x, nn))
    } else if d1 == 0x5 && d4 == 0x0 {
        Some(Instr::SkipEqReg(x, y))
    } else if d1 == 0x6 {
        Some(Instr::SetImm(x, nn))
    } else if d1 == 0x7 {
        Some(Instr::AddImm(x, nn))
    } else if d1 == 0x8 && d4 == 0x0 {
        Some(Instr::Mov(x, y))
    } else if d1 == 0x8 && d4 == 0x1 {
        Some(Instr::Or(x, y))
    } else if d1 == 0x8 && d4 == 0x2 {
        Some(Instr::And(x, y))
    } else if d1 == 0x8 && d4 == 0x3 {
        Some(Instr::Xor(x, y))
    } else if d1 == 0x8 && d4 == 0x4 {
        Some(Instr::AddReg(x, y))
    } else if d1 == 0x8 && d4 == 0x5 {
        Some(Instr::SubReg(x, y))
    } else if d1 == 0x8 && d4 == 0x6 {
        Some(Instr::Shr(x))
    } else if d1 == 0x8 && d4 == 0x7 {
        Some(Instr::SubFrom(x, y))
    } else if d1 == 0x8 && d4 == 0xE {
        Some(Instr::Shl(x))
    } else if d1 == 0x9 && d4 == 0x0 {
        Some(Instr::SkipNeReg(x, y))
    } else if d1 == 0xA {
        Some(Instr::SetIndex(nnn))
    } else if d1 == 0xB {
        Some(Instr::JmpV0(nnn))
    } else if d1 == 0xC {
        Some(Instr::Rand(x, nn))
    } else if d1 == 0xD {
        Some(Instr::Draw(x, y, d4))
    } else if d1 == 0xE && nn == 0x9E {
        Some(Instr::SkipKey(x))
    } else if d1 == 0xE && nn == 0xA1 {
        Some(Instr::SkipNoKey(x))
    } else if d1 == 0xF && nn == 0x07 {
        Some(Instr::GetDelay(x))
    } else if d1 == 0xF && nn == 0x0A {
        Some(Instr::WaitKey(x))
    } else if d1 == 0xF && nn == 0x15 {
        Some(Instr::SetDelay(x))
    } else if d1 == 0xF && nn == 0x18 {
        Some(Instr::SetSound(x))
    } else if d1 == 0xF && nn == 0x1E {
        Some(Instr::AddIndex(x))
    } else if d1 == 0xF && nn == 0x29 {
        Some(Instr::Font(x))
    } else if d1 == 0xF && nn == 0x33 {
        Some(Instr::Bcd(x))
    } else if d1 == 0xF && nn == 0x55 {
        Some(Instr::StoreRegs(x))
    } else if d1 == 0xF && nn == 0x65 {
        Some(Instr::LoadRegs(x))
    } else {
        None
    }
}

/// Split a 16-bit opcode word into its exact field pattern and return the
/// matching instruction, or `None` if no pattern matches.
pub fn decode(op: u16) -> (r: Option<Instr>)
    ensures
        r == spec_decode(op),
        r matches Some(i) ==> i.wf(),
{
    let d1: u16 = op / 0x1000;
    let x: u8 = ((op / 0x100) % 16) as u8;
    let y: u8 = ((op / 16) % 16) as u8;
    let d4: u8 = (op % 16) as u8;
    let nnn: u16 = op % 0x1000;
    let nn: u8 = (op % 0x100) as u8;
    if op == 0x0000 {
        Some(Instr::Nop)
    } else if op == 0x00E0 {
        Some(Instr::Cls)
    } else if op == 0x00EE {
        Some(Instr::Ret)
    } else if d1 == 0x1 {
        Some(Instr::Jmp(nnn))
    } else if d1 == 0x2 {
        Some(Instr::Call(nnn))
    } else if d1 == 0x3 {
        Some(Instr::SkipEqImm(x, nn))
    } else if d1 == 0x4 {
        Some(Instr::SkipNeImm(x, nn))
    } else if d1 == 0x5 && d4 == 0x0 {
        Some(Instr::SkipEqReg(x, y))
    } else if d1 == 0x6 {
        Some(Instr::SetImm(x, nn))
    } else if d1 == 0x7 {
        Some(Instr::AddImm(x, nn))
    } else if d1 == 0x8 && d4 == 0x0 {
        Some(Instr::Mov(x, y))
    } else if d1 == 0x8 && d4 == 0x1 {
        Some(Instr::Or(x, y))
    } else if d1 == 0x8 && d4 == 0x2 {
        Some(Instr::And(x, y))
    } else if d1 == 0x8 && d4 == 0x3 {
        Some(Instr::Xor(x, y))
    } else if d1 == 0x8 && d4 == 0x4 {
        Some(Instr::AddReg(x, y))
    } else if d1 == 0x8 && d4 == 0x5 {
        Some(Instr::SubReg(x, y))
    } else if d1 == 0x8 && d4 == 0x6 {
        Some(Instr::Shr(x))
    } else if d1 == 0x8 && d4 == 0x7 {
        Some(Instr::SubFrom(x, y))
    } else if d1 == 0x8 && d4 == 0xE {
        Some(Instr::Shl(x))
    } else if d1 == 0x9 && d4 == 0x0 {
        Some(Instr::SkipNeReg(x, y))
    } else if d1 == 0xA {
        Some(Instr::SetIndex(nnn))
    } else if d1 == 0xB {
        Some(Instr::JmpV0(nnn))
    } else if d1 == 0xC {
        Some(Instr::Rand(x, nn))
    } else if d1 == 0xD {
        Some(Instr::Draw(x, y, d4))
    } else if d1 == 0xE && nn == 0x9E {
        Some(Instr::SkipKey(x))
    } else if d1 == 0xE && nn == 0xA1 {
        Some(Instr::SkipNoKey(x))
    } else if d1 == 0xF && nn == 0x07 {
        Some(Instr::GetDelay(x))
    } else if d1 == 0xF && nn == 0x0A {
        Some(Instr::WaitKey(x))
    } else if d1 == 0xF && nn == 0x15 {
        Some(Instr::SetDelay(x))
    } else if d1 == 0xF && nn == 0x18 {
        Some(Instr::SetSound(x))
    } else if d1 == 0xF && nn == 0x1E {
        Some(Instr::AddIndex(x))
    } else if d1 == 0xF && nn == 0x29 {
        Some(Instr::Font(x))
    } else if d1 == 0xF && nn == 0x33 {
        Some(Instr::Bcd(x))
    } else if d1 == 0xF && nn == 0x55 {
        Some(Instr::StoreRegs(x))
    } else if d1 == 0xF && nn == 0x65 {
        Some(Instr::LoadRegs(x))
    } else {
        None
    }
}

} // verus!

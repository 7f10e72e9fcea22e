//! The instruction semantics: what one fetch-decode-execute step does to the
//! abstract machine state, stated as spec functions. The executable
//! interpreter is proved against these.

use vstd::prelude::*;

use crate::instr::Fault;
use crate::instr::Instr;
use crate::instr::spec_decode;
use crate::view::EmuView;
use crate::view::write_seq;

verus! {

/// The program counter after one instruction word, wrapping at 16 bits.
pub open spec fn next_pc(pc: u16) -> u16 {
    ((pc + 2) % 0x10000) as u16
}

/// Whether sprite column `col` (0 is the leftmost pixel) of sprite row
/// byte `b` is set.
pub open spec fn sprite_bit(b: u8, col: int) -> bool {
    (b >> ((7 - col) as u8)) & 1 == 1
}

/// The flattened framebuffer index that sprite column `col` of sprite row
/// `row`, drawn at origin `(x0, y0)`, lands on; both coordinates wrap.
pub open spec fn pix_index(x0: u8, y0: u8, row: int, col: int) -> int {
    (x0 + col) % 64 + 64 * ((y0 + row) % 32)
}

/// The framebuffer and collision flag after XOR-drawing the set bits of the
/// first `ncols` columns of sprite row byte `b` at row `row` of origin
/// `(x0, y0)`. The collision flag is true if any XOR turned a set pixel off.
pub open spec fn draw_cols(screen: Seq<bool>, b: u8, x0: u8, y0: u8, row: int, ncols: int) -> (Seq<
    bool,
>, bool)
    decreases ncols,
{
    if ncols <= 0 {
        (screen, false)
    } else {
        let prev = draw_cols(screen, b, x0, y0, row, ncols - 1);
        let c = ncols - 1;
        if sprite_bit(b, c) {
            let idx = pix_index(x0, y0, row, c);
            (prev.0.update(idx, !prev.0[idx]), prev.1 || prev.0[idx])
        } else {
            prev
        }
    }
}

/// The framebuffer and collision flag after drawing the first `nrows` sprite
/// rows, read from memory at `i`, at origin `(x0, y0)`. The collision flag
/// covers the whole sprite, not one row.
pub open spec fn draw_rows(
    screen: Seq<bool>,
    ram: Seq<u8>,
    i: u16,
    x0: u8,
    y0: u8,
    nrows: int,
) -> (Seq<bool>, bool)
    decreases nrows,
{
    if nrows <= 0 {
        (screen, false)
    } else {
        let prev = draw_rows(screen, ram, i, x0, y0, nrows - 1);
        let r = nrows - 1;
        let rowres = draw_cols(prev.0, ram[i + r], x0, y0, r, 8);
        (rowres.0, prev.1 || rowres.1)
    }
}

/// The lowest pressed key index at or above `k`, if any.
pub open spec fn first_key_from(keys: Seq<bool>, k: int) -> Option<int>
    decreases 16 - k,
{
    if k < 0 || k >= 16 {
        None
    } else if keys[k] {
        Some(k)
    } else {
        first_key_from(keys, k + 1)
    }
}

/// One cadence tick of a timer: decrement above zero, stay at zero.
pub open spec fn dec_timer(t: u8) -> u8 {
    if t > 0 {
        (t - 1) as u8
    } else {
        0
    }
}

/// Scanning for the lowest pressed key may skip any unpressed prefix.
pub proof fn lemma_first_key_skip(keys: Seq<bool>, k: int)
    requires
        0 <= k <= 16,
        forall|j: int| 0 <= j < k ==> !keys[j],
    ensures
        first_key_from(keys, 0) == first_key_from(keys, k),
    decreases k,
{
    if k > 0 {
        lemma_first_key_skip(keys, k - 1);
    }
}

/// What executing instruction `ins` does to state `s`, where `s.pc` has
/// already been advanced past the instruction word and `rnd` is the byte the
/// random source supplied. A fault carries no state: the caller keeps the
/// pre-step state unchanged.
pub open spec fn spec_execute(s: EmuView, ins: Instr, rnd: u8) -> Result<EmuView, Fault> {
    match ins {
        Instr::Nop => Ok(s),
        Instr::Cls => Ok(
            EmuView { screen: Seq::new(s.screen.len(), |j: int| false), ..s },
        ),
        Instr::Ret => if s.stack.len() == 0 {
            Err(Fault::StackUnderflow)
        } else {
            Ok(EmuView { pc: s.stack.last(), stack: s.stack.drop_last(), ..s })
        },
        Instr::Jmp(nnn) => Ok(EmuView { pc: nnn, ..s }),
        Instr::Call(nnn) => if s.stack.len() >= 16 {
            Err(Fault::StackOverflow)
        } else {
            Ok(EmuView { pc: nnn, stack: s.stack.push(s.pc), ..s })
        },
        Instr::SkipEqImm(x, nn) => Ok(
            EmuView { pc: if s.v[x as int] == nn { next_pc(s.pc) } else { s.pc }, ..s },
        ),
        Instr::SkipNeImm(x, nn) => Ok(
            EmuView { pc: if s.v[x as int] != nn { next_pc(s.pc) } else { s.pc }, ..s },
        ),
        Instr::SkipEqReg(x, y) => Ok(
            EmuView { pc: if s.v[x as int] == s.v[y as int] { next_pc(s.pc) } else { s.pc }, ..s },
        ),
        Instr::SetImm(x, nn) => Ok(EmuView { v: s.v.update(x as int, nn), ..s }),
        Instr::AddImm(x, nn) => Ok(
            EmuView { v: s.v.update(x as int, ((s.v[x as int] + nn) % 256) as u8), ..s },
        ),
        Instr::Mov(x, y) => Ok(EmuView { v: s.v.update(x as int, s.v[y as int]), ..s }),
        Instr::Or(x, y) => Ok(
            EmuView { v: s.v.update(x as int, s.v[x as int] | s.v[y as int]), ..s },
        ),
        Instr::And(x, y) => Ok(
            EmuView { v: s.v.update(x as int, s.v[x as int] & s.v[y as int]), ..s },
        ),
        Instr::Xor(x, y) => Ok(
            EmuView { v: s.v.update(x as int, s.v[x as int] ^ s.v[y as int]), ..s },
        ),
        Instr::AddReg(x, y) => {
            let sum = s.v[x as int] + s.v[y as int];
            let flag: u8 = if sum > 255 { 1 } else { 0 };
            Ok(EmuView { v: s.v.update(x as int, (sum % 256) as u8).update(15, flag), ..s })
        },
        Instr::SubReg(x, y) => {
            let diff = s.v[x as int] - s.v[y as int];
            let flag: u8 = if diff < 0 { 0 } else { 1 };
            Ok(EmuView { v: s.v.update(x as int, (diff % 256) as u8).update(15, flag), ..s })
        },
        Instr::Shr(x) => {
            let vx = s.v[x as int];
            Ok(EmuView { v: s.v.update(x as int, vx / 2).update(15, vx % 2), ..s })
        },
        Instr::SubFrom(x, y) => {
            let diff = s.v[y as int] - s.v[x as int];
            let flag: u8 = if diff < 0 { 0 } else { 1 };
            Ok(EmuView { v: s.v.update(x as int, (diff % 256) as u8).update(15, flag), ..s })
        },
        Instr::Shl(x) => {
            let vx = s.v[x as int];
            Ok(
                EmuView {
                    v: s.v.update(x as int, ((vx * 2) % 256) as u8).update(15, vx / 128),
                    ..s
                },
            )
        },
        Instr::SkipNeReg(x, y) => Ok(
            EmuView { pc: if s.v[x as int] != s.v[y as int] { next_pc(s.pc) } else { s.pc }, ..s },
        ),
        Instr::SetIndex(nnn) => Ok(EmuView { i: nnn, ..s }),
        Instr::JmpV0(nnn) => Ok(EmuView { pc: (s.v[0] + nnn) as u16, ..s }),
        Instr::Rand(x, nn) => Ok(EmuView { v: s.v.update(x as int, rnd & nn), ..s }),
        Instr::Draw(x, y, n) => if n > 0 && s.i + n > 4096 {
            Err(Fault::MemoryOutOfBounds)
        } else {
            let dr = draw_rows(s.screen, s.ram, s.i, s.v[x as int], s.v[y as int], n as int);
            Ok(
                EmuView {
                    screen: dr.0,
                    v: s.v.update(15, if dr.1 { 1u8 } else { 0u8 }),
                    ..s
                },
            )
        },
        Instr::SkipKey(x) => if s.v[x as int] >= 16 {
            Err(Fault::KeyOutOfRange)
        } else {
            Ok(
                EmuView { pc: if s.keys[s.v[x as int] as int] { next_pc(s.pc) } else { s.pc }, ..s },
            )
        },
        Instr::SkipNoKey(x) => if s.v[x as int] >= 16 {
            Err(Fault::KeyOutOfRange)
        } else {
            Ok(
                EmuView {
                    pc: if !s.keys[s.v[x as int] as int] { next_pc(s.pc) } else { s.pc },
                    ..s
                },
            )
        },
        Instr::GetDelay(x) => Ok(EmuView { v: s.v.update(x as int, s.dt), ..s }),
        Instr::WaitKey(x) => match first_key_from(s.keys, 0) {
            Some(k) => Ok(EmuView { v: s.v.update(x as int, k as u8), ..s }),
            None => Ok(EmuView { pc: (s.pc - 2) as u16, ..s }),
        },
        Instr::SetDelay(x) => Ok(EmuView { dt: s.v[x as int], ..s }),
        Instr::SetSound(x) => Ok(EmuView { st: s.v[x as int], ..s }),
        Instr::AddIndex(x) => Ok(EmuView { i: ((s.i + s.v[x as int]) % 0x10000) as u16, ..s }),
        Instr::Font(x) => Ok(EmuView { i: (s.v[x as int] * 5) as u16, ..s }),
        Instr::Bcd(x) => if s.i > 4093 {
            Err(Fault::MemoryOutOfBounds)
        } else {
            let vx = s.v[x as int];
            Ok(
                EmuView {
                    ram: s.ram.update(s.i as int, vx / 100).update(
                        s.i + 1,
                        (vx / 10) % 10,
                    ).update(s.i + 2, vx % 10),
                    ..s
                },
            )
        },
        Instr::StoreRegs(x) => if s.i + x > 4095 {
            Err(Fault::MemoryOutOfBounds)
        } else {
            Ok(EmuView { ram: write_seq(s.ram, s.i as int, s.v.take(x + 1)), ..s })
        },
        Instr::LoadRegs(x) => if s.i + x > 4095 {
            Err(Fault::MemoryOutOfBounds)
        } else {
            Ok(
                EmuView {
                    v: Seq::new(
                        16,
                        |k: int| if k <= x { s.ram[s.i + k] } else { s.v[k] },
                    ),
                    ..s
                },
            )
        },
    }
}

/// The machine at `s` executes instruction `ins`: the program counter
/// advances past the instruction word, then the instruction's effect
/// applies.
pub open spec fn spec_run(s: EmuView, ins: Instr, rnd: u8) -> Result<EmuView, Fault> {
    spec_execute(EmuView { pc: next_pc(s.pc), ..s }, ins, rnd)
}

/// The big-endian 16-bit instruction word at `s.pc`.
pub open spec fn fetched_op(s: EmuView) -> u16 {
    (s.ram[s.pc as int] * 256 + s.ram[s.pc as int + 1]) as u16
}

/// One whole step: fetch the word at the program counter, decode it, and
/// execute it. Fetching beyond memory or decoding an unmatched pattern is a
/// fault, and a fault carries no state change.
pub open spec fn spec_step(s: EmuView, rnd: u8) -> Result<EmuView, Fault> {
    if s.pc + 1 >= 4096 {
        Err(Fault::MemoryOutOfBounds)
    } else {
        match spec_decode(fetched_op(s)) {
            None => Err(Fault::UnknownOpcode),
            Some(ins) => spec_run(s, ins, rnd),
        }
    }
}

/// How a step call relates its outcome to the states before and after: on
/// success the machine moves to exactly the state the semantics give; on a
/// fault the machine reports that fault and is left exactly as it was.
pub open spec fn step_to(pre: EmuView, rnd: u8, post: EmuView, res: Result<(), Fault>) -> bool {
    match spec_step(pre, rnd) {
        Ok(s2) => res is Ok && post == s2,
        Err(f) => res == Err::<(), Fault>(f) && post == pre,
    }
}

} // verus!

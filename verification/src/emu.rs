//! The executable machine: a CHIP-8 interpreter whose every operation is
//! proved against the abstract semantics in [`crate::semantics`].

use vstd::prelude::*;

use crate::SCREEN_HEIGHT;
use crate::SCREEN_WIDTH;
use crate::instr::Fault;
use crate::instr::Instr;
use crate::instr::decode;
use crate::semantics::dec_timer;
use crate::semantics::draw_cols;
use crate::semantics::draw_rows;
use crate::semantics::fetched_op;
use crate::semantics::lemma_first_key_skip;
use crate::semantics::pix_index;
use crate::semantics::spec_run;
use crate::semantics::step_to;
use crate::view::EmuView;
use crate::view::NUM_KEYS;
use crate::view::NUM_REGS;
use crate::view::RAM_SIZE;
use crate::view::STACK_SIZE;
use crate::view::START_ADDR;
use crate::view::font;
use crate::view::initial_view;
use crate::view::write_seq;

verus! {

/// Relies on rand::random: draws a byte from the thread-local generator.
/// Nothing is promised of the result; every caller must do right whatever
/// byte comes back.
#[verifier::external_body]
fn random_byte() -> u8 {
    rand::random()
}

/// The machine: memory, registers, return stack, timers, framebuffer and
/// key latch, advanced one instruction at a time.
pub struct Emu {
    pc: u16,
    ram: Vec<u8>,
    screen: Vec<bool>,
    v_reg: Vec<u8>,
    i_reg: u16,
    sp: u16,
    stack: Vec<u16>,
    keys: Vec<bool>,
    dt: u8,
    st: u8,
}

impl View for Emu {
    type V = EmuView;

    /// The abstract state: the stack buffer is abstracted to its live
    /// prefix of `sp` return addresses.
    closed spec fn view(&self) -> EmuView {
        EmuView {
            pc: self.pc,
            ram: self.ram@,
            screen: self.screen@,
            v: self.v_reg@,
            i: self.i_reg,
            stack: self.stack@.take(self.sp as int),
            keys: self.keys@,
            dt: self.dt,
            st: self.st,
        }
    }
}

/// A vector of `n` zero bytes.
fn zero_bytes(n: usize) -> (v: Vec<u8>)
    ensures
        v@ == Seq::new(n as nat, |j: int| 0u8),
{
    let mut v: Vec<u8> = Vec::new();
    while v.len() < n
        invariant
            v@.len() <= n,
            forall|j: int| 0 <= j < v@.len() ==> v@[j] == 0u8,
        decreases n - v@.len(),
    {
        v.push(0);
    }
    proof {
        assert(v@ =~= Seq::new(n as nat, |j: int| 0u8));
    }
    v
}

/// A vector of `n` cleared cells.
fn false_cells(n: usize) -> (v: Vec<bool>)
    ensures
        v@ == Seq::new(n as nat, |j: int| false),
{
    let mut v: Vec<bool> = Vec::new();
    while v.len() < n
        invariant
            v@.len() <= n,
            forall|j: int| 0 <= j < v@.len() ==> v@[j] == false,
        decreases n - v@.len(),
    {
        v.push(false);
    }
    proof {
        assert(v@ =~= Seq::new(n as nat, |j: int| false));
    }
    v
}

/// A vector of `n` zero words.
fn zero_words(n: usize) -> (v: Vec<u16>)
    ensures
        v@.len() == n,
{
    let mut v: Vec<u16> = Vec::new();
    while v.len() < n
        invariant
            v@.len() <= n,
        decreases n - v@.len(),
    {
        v.push(0);
    }
    v
}

/// The font table as bytes, in the layout [`font`] gives.
fn font_bytes() -> (v: Vec<u8>)
    ensures
        v@ == font(),
{
    let v: Vec<u8> = vec![
        0xF0, 0x90, 0x90, 0x90, 0xF0,
        0x20, 0x60, 0x20, 0x20, 0x70,
        0xF0, 0x10, 0xF0, 0x80, 0xF0,
        0xF0, 0x10, 0xF0, 0x10, 0xF0,
        0x90, 0x90, 0xF0, 0x10, 0x10,
        0xF0, 0x80, 0xF0, 0x10, 0xF0,
        0xF0, 0x80, 0xF0, 0x90, 0xF0,
        0xF0, 0x10, 0x20, 0x40, 0x40,
        0xF0, 0x90, 0xF0, 0x90, 0xF0,
        0xF0, 0x90, 0xF0, 0x10, 0xF0,
        0xF0, 0x90, 0xF0, 0x90, 0x90,
        0xE0, 0x90, 0xE0, 0x90, 0xE0,
        0xF0, 0x80, 0x80, 0x80, 0xF0,
        0xE0, 0x90, 0x90, 0x90, 0xE0,
        0xF0, 0x80, 0xF0, 0x80, 0xF0,
        0xF0, 0x80, 0xF0, 0x80, 0x80,
    ];
    proof {
        assert(v@ =~= font());
    }
    v
}

/// Copy `data` into `buf` starting at `start`; everything outside the
/// written range keeps its value.
fn write_block(buf: &mut Vec<u8>, start: usize, data: &[u8])
    requires
        start + data@.len() <= old(buf)@.len(),
    ensures
        final(buf)@ == write_seq(old(buf)@, start as int, data@),
{
    let buf_len: usize = buf.len();
    let mut k: usize = 0;
    while k < data.len()
        invariant
            buf_len == old(buf)@.len(),
            start + data@.len() <= buf@.len(),
            buf@.len() == old(buf)@.len(),
            k <= data@.len(),
            forall|j: int| 0 <= j < start ==> buf@[j] == old(buf)@[j],
            forall|j: int| start <= j < start + k ==> buf@[j] == data@[j - start],
            forall|j: int| start + k <= j < buf@.len() ==> buf@[j] == old(buf)@[j],
        decreases data@.len() - k,
    {
        buf[start + k] = data[k];
        k = k + 1;
    }
    proof {
        assert(buf@ =~= write_seq(old(buf)@, start as int, data@));
    }
}

/// Drawing one sprite row preserves the framebuffer's size.
proof fn lemma_draw_cols_len(screen: Seq<bool>, b: u8, x0: u8, y0: u8, row: int, ncols: int)
    requires
        screen.len() == SCREEN_WIDTH * SCREEN_HEIGHT,
    ensures
        draw_cols(screen, b, x0, y0, row, ncols).0.len() == screen.len(),
    decreases ncols,
{
    if ncols > 0 {
        lemma_draw_cols_len(screen, b, x0, y0, row, ncols - 1);
    }
}

/// Drawing a sprite preserves the framebuffer's size.
proof fn lemma_draw_rows_len(screen: Seq<bool>, ram: Seq<u8>, i: u16, x0: u8, y0: u8, nrows: int)
    requires
        screen.len() == SCREEN_WIDTH * SCREEN_HEIGHT,
    ensures
        draw_rows(screen, ram, i, x0, y0, nrows).0.len() == screen.len(),
    decreases nrows,
{
    if nrows > 0 {
        lemma_draw_rows_len(screen, ram, i, x0, y0, nrows - 1);
        lemma_draw_cols_len(
            draw_rows(screen, ram, i, x0, y0, nrows - 1).0,
            ram[i + nrows - 1],
            x0,
            y0,
            nrows - 1,
            8,
        );
    }
}

/// XOR-draw the set bits of the first `n` sprite rows at `i` in `ram` at
/// origin `(x0, y0)`, and report whether any set pixel was turned off.
fn draw_sprite(screen: &mut Vec<bool>, ram: &Vec<u8>, i: u16, x0: u8, y0: u8, n: u8) -> (collision:
    bool)
    requires
        old(screen)@.len() == SCREEN_WIDTH * SCREEN_HEIGHT,
        ram@.len() == RAM_SIZE,
        n <= 15,
        n > 0 ==> i + n <= RAM_SIZE,
    ensures
        final(screen)@ == draw_rows(old(screen)@, ram@, i, x0, y0, n as int).0,
        collision == draw_rows(old(screen)@, ram@, i, x0, y0, n as int).1,
{
    let mut collided = false;
    let mut row: u8 = 0;
    while row < n
        invariant
            row <= n,
            n <= 15,
            n > 0 ==> i + n <= RAM_SIZE,
            ram@.len() == RAM_SIZE,
            old(screen)@.len() == SCREEN_WIDTH * SCREEN_HEIGHT,
            screen@ == draw_rows(old(screen)@, ram@, i, x0, y0, row as int).0,
            collided == draw_rows(old(screen)@, ram@, i, x0, y0, row as int).1,
        decreases n - row,
    {
        let ghost base = draw_rows(old(screen)@, ram@, i, x0, y0, row as int);
        let b: u8 = ram[i as usize + row as usize];
        let ghost row_start = screen@;
        let ghost coll_start = collided;
        let mut col: u8 = 0;
        while col < 8
            invariant
                col <= 8,
                row < n,
                n <= 15,
                base == draw_rows(old(screen)@, ram@, i, x0, y0, row as int),
                row_start == base.0,
                coll_start == base.1,
                b == ram@[i + row],
                old(screen)@.len() == SCREEN_WIDTH * SCREEN_HEIGHT,
                screen@ == draw_cols(row_start, b, x0, y0, row as int, col as int).0,
                collided == (coll_start || draw_cols(row_start, b, x0, y0, row as int,
                col as int).1),
            decreases 8 - col,
        {
            proof {
                lemma_draw_rows_len(old(screen)@, ram@, i, x0, y0, row as int);
                lemma_draw_cols_len(row_start, b, x0, y0, row as int, col as int);
            }
            if (b >> (7 - col)) & 1 == 1 {
                let px: usize = (x0 as usize + col as usize) % SCREEN_WIDTH;
                let py: usize = (y0 as usize + row as usize) % SCREEN_HEIGHT;
                let idx: usize = px + SCREEN_WIDTH * py;
                proof {
                    assert(idx == pix_index(x0, y0, row as int, col as int));
                    assert(idx < SCREEN_WIDTH * SCREEN_HEIGHT);
                }
                let cur = screen[idx];
                if cur {
                    collided = true;
                }
                screen[idx] = !cur;
            }
            col = col + 1;
        }
        proof {
            lemma_draw_rows_len(old(screen)@, ram@, i, x0, y0, row as int);
            lemma_draw_cols_len(row_start, b, x0, y0, row as int, 8);
        }
        row = row + 1;
    }
    collided
}

impl Emu {
    /// The struct's buffers have their fixed sizes and the stack pointer is
    /// within the stack's capacity.
    pub closed spec fn wf(&self) -> bool {
        &&& self.ram@.len() == RAM_SIZE
        &&& self.screen@.len() == SCREEN_WIDTH * SCREEN_HEIGHT
        &&& self.v_reg@.len() == NUM_REGS
        &&& self.stack@.len() == STACK_SIZE
        &&& self.sp <= STACK_SIZE
        &&& self.keys@.len() == NUM_KEYS
    }

    /// A machine in its initial state: memory zero but for the font table,
    /// the program counter at the program start address, everything else
    /// cleared.
    pub fn new() -> (e: Emu)
        ensures
            e.wf(),
            e@ == initial_view(),
    {
        let mut ram = zero_bytes(RAM_SIZE);
        let f = font_bytes();
        write_block(&mut ram, 0, f.as_slice());
        let e = Emu {
            pc: START_ADDR,
            ram,
            screen: false_cells(SCREEN_WIDTH * SCREEN_HEIGHT),
            v_reg: zero_bytes(NUM_REGS),
            i_reg: 0,
            sp: 0,
            stack: zero_words(STACK_SIZE),
            keys: false_cells(NUM_KEYS),
            dt: 0,
            st: 0,
        };
        proof {
            assert(e@.ram =~= initial_view().ram);
            assert(e@.stack =~= initial_view().stack);
            assert(e@ =~= initial_view());
        }
        e
    }

    /// Restore the initial state in place.
    pub fn reset(&mut self)
        ensures
            final(self).wf(),
            final(self)@ == initial_view(),
    {
        *self = Emu::new();
    }

    /// Install program bytes at the fixed program offset, leaving the rest
    /// of memory (the font table included) as it was. The caller guarantees
    /// the program fits below the end of memory.
    pub fn load(&mut self, data: &[u8])
        requires
            old(self).wf(),
            data@.len() <= RAM_SIZE - START_ADDR,
        ensures
            final(self).wf(),
            final(self)@ == (EmuView {
                ram: write_seq(old(self)@.ram, START_ADDR as int, data@),
                ..old(self)@
            }),
    {
        write_block(&mut self.ram, START_ADDR as usize, data);
    }

    /// Decrement each timer that is above zero; a timer at zero stays at
    /// zero. Nothing else changes. The host calls this at its own fixed
    /// cadence, independent of the instruction rate; the sound timer
    /// reaching zero is the host's cue to stop its tone.
    pub fn tick_timers(&mut self)
        requires
            old(self).wf(),
        ensures
            final(self).wf(),
            final(self)@ == (EmuView {
                dt: dec_timer(old(self)@.dt),
                st: dec_timer(old(self)@.st),
                ..old(self)@
            }),
    {
        if self.dt > 0 {
            self.dt = self.dt - 1;
        }
        if self.st > 0 {
            self.st = self.st - 1;
        }
    }

    /// Record a key going down or up in the input latch. The caller
    /// validates the index.
    pub fn keypress(&mut self, index: usize, pressed: bool)
        requires
            old(self).wf(),
            index < NUM_KEYS,
        ensures
            final(self).wf(),
            final(self)@ == (EmuView {
                keys: old(self)@.keys.update(index as int, pressed),
                ..old(self)@
            }),
    {
        self.keys[index] = pressed;
    }

    /// A read-only view of the framebuffer, flattened row-major: pixel
    /// `(x, y)` is at index `x + SCREEN_WIDTH * y`.
    pub fn get_display(&self) -> (d: &[bool])
        ensures
            d@ == self@.screen,
    {
        self.screen.as_slice()
    }

    /// The program counter.
    pub fn get_pc(&self) -> (r: u16)
        ensures
            r == self@.pc,
    {
        self.pc
    }

    /// The index register.
    pub fn get_i(&self) -> (r: u16)
        ensures
            r == self@.i,
    {
        self.i_reg
    }

    /// General register `Vx`.
    pub fn get_v(&self, x: usize) -> (r: u8)
        requires
            self.wf(),
            x < NUM_REGS,
        ensures
            r == self@.v[x as int],
    {
        self.v_reg[x]
    }

    /// The delay timer.
    pub fn get_dt(&self) -> (r: u8)
        ensures
            r == self@.dt,
    {
        self.dt
    }

    /// The sound timer.
    pub fn get_st(&self) -> (r: u8)
        ensures
            r == self@.st,
    {
        self.st
    }

    /// The memory byte at `addr`.
    pub fn get_ram(&self, addr: usize) -> (r: u8)
        requires
            self.wf(),
            addr < RAM_SIZE,
        ensures
            r == self@.ram[addr as int],
    {
        self.ram[addr]
    }

    /// How many return addresses the stack currently holds.
    pub fn stack_size(&self) -> (r: usize)
        requires
            self.wf(),
        ensures
            r == self@.stack.len(),
    {
        self.sp as usize
    }

    /// Push a return address; a push at full depth is a stack-overflow
    /// fault and changes nothing.
    fn push(&mut self, val: u16) -> (res: Result<(), Fault>)
        requires
            old(self).wf(),
        ensures
            final(self).wf(),
            old(self)@.stack.len() < STACK_SIZE ==> res is Ok && final(self)@ == (EmuView {
                stack: old(self)@.stack.push(val),
                ..old(self)@
            }),
            old(self)@.stack.len() >= STACK_SIZE ==> res == Err::<(), Fault>(Fault::StackOverflow)
                && final(self)@ == old(self)@,
    {
        if self.sp >= STACK_SIZE as u16 {
            Err(Fault::StackOverflow)
        } else {
            let ghost pre = self@;
            self.stack[self.sp as usize] = val;
            self.sp = self.sp + 1;
            proof {
                assert(self@.stack =~= pre.stack.push(val));
            }
            Ok(())
        }
    }

    /// Pop the most recent return address; a pop at depth zero is a
    /// stack-underflow fault and changes nothing.
    fn pop(&mut self) -> (res: Result<u16, Fault>)
        requires
            old(self).wf(),
        ensures
            final(self).wf(),
            old(self)@.stack.len() > 0 ==> res == Ok::<u16, Fault>(old(self)@.stack.last())
                && final(self)@ == (EmuView {
                stack: old(self)@.stack.drop_last(),
                ..old(self)@
            }),
            old(self)@.stack.len() == 0 ==> res == Err::<u16, Fault>(Fault::StackUnderflow)
                && final(self)@ == old(self)@,
    {
        if self.sp == 0 {
            Err(Fault::StackUnderflow)
        } else {
            let ghost pre = self@;
            self.sp = self.sp - 1;
            let val = self.stack[self.sp as usize];
            proof {
                assert(self@.stack =~= pre.stack.drop_last());
            }
            Ok(val)
        }
    }

    /// Read the big-endian instruction word at the program counter without
    /// touching any state; fetching beyond memory is a fault.
    fn fetch(&self) -> (res: Result<u16, Fault>)
        requires
            self.wf(),
        ensures
            self@.pc + 1 < RAM_SIZE ==> res == Ok::<u16, Fault>(
                crate::semantics::fetched_op(self@),
            ),
            self@.pc + 1 >= RAM_SIZE ==> res == Err::<u16, Fault>(Fault::MemoryOutOfBounds),
    {
        if self.pc >= (RAM_SIZE as u16) - 1 {
            Err(Fault::MemoryOutOfBounds)
        } else {
            let hi = self.ram[self.pc as usize];
            let lo = self.ram[self.pc as usize + 1];
            Ok((hi as u16) * 256 + (lo as u16))
        }
    }

    /// Apply one decoded instruction: advance the program counter past
    /// the instruction word and perform the instruction's effect, exactly
    /// as the semantics state; on a fault, report it and change nothing.
    /// `rnd` is the byte the random source supplied for this step.
    fn execute(&mut self, ins: Instr, rnd: u8) -> (res: Result<(), Fault>)
        requires
            old(self).wf(),
            ins.wf(),
            old(self)@.pc + 2 <= RAM_SIZE,
        ensures
            final(self).wf(),
            match spec_run(old(self)@, ins, rnd) {
                Ok(s2) => res is Ok && final(self)@ == s2,
                Err(f) => res == Err::<(), Fault>(f) && final(self)@ == old(self)@,
            },
    {
        match ins {
            Instr::SetImm(..) | Instr::AddImm(..) | Instr::Mov(..) | Instr::Or(..)
                | Instr::And(..) | Instr::Xor(..) | Instr::AddReg(..) | Instr::SubReg(..)
                | Instr::Shr(..) | Instr::SubFrom(..) | Instr::Shl(..) | Instr::Rand(..) => self
                .execute_alu(ins, rnd),
            Instr::Nop | Instr::Jmp(..) | Instr::Call(..) | Instr::Ret | Instr::SkipEqImm(..)
                | Instr::SkipNeImm(..) | Instr::SkipEqReg(..) | Instr::SkipNeReg(..)
                | Instr::JmpV0(..) | Instr::SetIndex(..) | Instr::AddIndex(..)
                | Instr::Font(..) => self.execute_flow(ins, rnd),
            Instr::Cls | Instr::Draw(..) | Instr::SkipKey(..) | Instr::SkipNoKey(..)
                | Instr::GetDelay(..) | Instr::WaitKey(..) | Instr::SetDelay(..)
                | Instr::SetSound(..) | Instr::Bcd(..) | Instr::StoreRegs(..)
                | Instr::LoadRegs(..) => self.execute_mem(ins, rnd),
        }
    }

    /// The register-arithmetic instructions.
    #[verifier::rlimit(100)]
    #[verifier::spinoff_prover]
    fn execute_alu(&mut self, ins: Instr, rnd: u8) -> (res: Result<(), Fault>)
        requires
            old(self).wf(),
            ins.wf(),
            old(self)@.pc + 2 <= RAM_SIZE,
            ins matches Instr::SetImm(..) || ins matches Instr::AddImm(..) || ins matches Instr::Mov(..) || ins matches Instr::Or(..) || ins matches Instr::And(..) || ins matches Instr::Xor(..) || ins matches Instr::AddReg(..) || ins matches Instr::SubReg(..) || ins matches Instr::Shr(..) || ins matches Instr::SubFrom(..) || ins matches Instr::Shl(..) || ins matches Instr::Rand(..),
        ensures
            final(self).wf(),
            match spec_run(old(self)@, ins, rnd) {
                Ok(s2) => res is Ok && final(self)@ == s2,
                Err(f) => res == Err::<(), Fault>(f) && final(self)@ == old(self)@,
            },
    {
        let pc2: u16 = self.pc + 2;
        match ins {
            Instr::SetImm(x, nn) => {
                self.v_reg[x as usize] = nn;
                self.pc = pc2;
                Ok(())
            },
            Instr::AddImm(x, nn) => {
                let sum: u16 = self.v_reg[x as usize] as u16 + nn as u16;
                self.v_reg[x as usize] = (sum % 256) as u8;
                self.pc = pc2;
                Ok(())
            },
            Instr::Mov(x, y) => {
                let vy = self.v_reg[y as usize];
                self.v_reg[x as usize] = vy;
                self.pc = pc2;
                Ok(())
            },
            Instr::Or(x, y) => {
                let vy = self.v_reg[y as usize];
                let vx = self.v_reg[x as usize];
                self.v_reg[x as usize] = vx | vy;
                self.pc = pc2;
                Ok(())
            },
            Instr::And(x, y) => {
                let vy = self.v_reg[y as usize];
                let vx = self.v_reg[x as usize];
                self.v_reg[x as usize] = vx & vy;
                self.pc = pc2;
                Ok(())
            },
            Instr::Xor(x, y) => {
                let vy = self.v_reg[y as usize];
                let vx = self.v_reg[x as usize];
                self.v_reg[x as usize] = vx ^ vy;
                self.pc = pc2;
                Ok(())
            },
            Instr::AddReg(x, y) => {
                let vx = self.v_reg[x as usize];
                let vy = self.v_reg[y as usize];
                let sum: u16 = vx as u16 + vy as u16;
                self.v_reg[x as usize] = (sum % 256) as u8;
                self.v_reg[15] = if sum > 255 {
                    1
                } else {
                    0
                };
                self.pc = pc2;
                Ok(())
            },
            Instr::SubReg(x, y) => {
                let vx = self.v_reg[x as usize];
                let vy = self.v_reg[y as usize];
                if vx >= vy {
                    self.v_reg[x as usize] = vx - vy;
                    self.v_reg[15] = 1;
                } else {
                    self.v_reg[x as usize] = ((vx as u16 + 256) - vy as u16) as u8;
                    self.v_reg[15] = 0;
                }
                self.pc = pc2;
                Ok(())
            },
            Instr::Shr(x) => {
                let vx = self.v_reg[x as usize];
                self.v_reg[x as usize] = vx / 2;
                self.v_reg[15] = vx % 2;
                self.pc = pc2;
                Ok(())
            },
            Instr::SubFrom(x, y) => {
                let vx = self.v_reg[x as usize];
                let vy = self.v_reg[y as usize];
                if vy >= vx {
                    self.v_reg[x as usize] = vy - vx;
                    self.v_reg[15] = 1;
                } else {
                    self.v_reg[x as usize] = ((vy as u16 + 256) - vx as u16) as u8;
                    self.v_reg[15] = 0;
                }
                self.pc = pc2;
                Ok(())
            },
            Instr::Shl(x) => {
                let vx = self.v_reg[x as usize];
                let dbl: u16 = vx as u16 * 2;
                self.v_reg[x as usize] = (dbl % 256) as u8;
                self.v_reg[15] = vx / 128;
                self.pc = pc2;
                Ok(())
            },
            Instr::Rand(x, nn) => {
                self.v_reg[x as usize] = rnd & nn;
                self.pc = pc2;
                Ok(())
            },
            _ => {
                // the dispatcher sends only this family's instructions here
                proof {
                    assert(false);
                }
                Ok(())
            },
        }
    }

    /// The control-flow and index-register instructions.
    #[verifier::rlimit(100)]
    #[verifier::spinoff_prover]
    fn execute_flow(&mut self, ins: Instr, rnd: u8) -> (res: Result<(), Fault>)
        requires
            old(self).wf(),
            ins.wf(),
            old(self)@.pc + 2 <= RAM_SIZE,
            ins matches Instr::Nop || ins matches Instr::Jmp(..) || ins matches Instr::Call(..) || ins matches Instr::Ret || ins matches Instr::SkipEqImm(..) || ins matches Instr::SkipNeImm(..) || ins matches Instr::SkipEqReg(..) || ins matches Instr::SkipNeReg(..) || ins matches Instr::JmpV0(..) || ins matches Instr::SetIndex(..) || ins matches Instr::AddIndex(..) || ins matches Instr::Font(..),
        ensures
            final(self).wf(),
            match spec_run(old(self)@, ins, rnd) {
                Ok(s2) => res is Ok && final(self)@ == s2,
                Err(f) => res == Err::<(), Fault>(f) && final(self)@ == old(self)@,
            },
    {
        let pc2: u16 = self.pc + 2;
        match ins {
            Instr::Nop => {
                self.pc = pc2;
                Ok(())
            },
            Instr::Jmp(nnn) => {
                self.pc = nnn;
                Ok(())
            },
            Instr::Call(nnn) => {
                match self.push(pc2) {
                    Err(f) => Err(f),
                    Ok(_) => {
                        self.pc = nnn;
                        Ok(())
                    },
                }
            },
            Instr::Ret => {
                match self.pop() {
                    Err(f) => Err(f),
                    Ok(addr) => {
                        self.pc = addr;
                        Ok(())
                    },
                }
            },
            Instr::SkipEqImm(x, nn) => {
                self.pc = if self.v_reg[x as usize] == nn {
                    pc2 + 2
                } else {
                    pc2
                };
                Ok(())
            },
            Instr::SkipNeImm(x, nn) => {
                self.pc = if self.v_reg[x as usize] != nn {
                    pc2 + 2
                } else {
                    pc2
                };
                Ok(())
            },
            Instr::SkipEqReg(x, y) => {
                self.pc = if self.v_reg[x as usize] == self.v_reg[y as usize] {
                    pc2 + 2
                } else {
                    pc2
                };
                Ok(())
            },
            Instr::SkipNeReg(x, y) => {
                self.pc = if self.v_reg[x as usize] != self.v_reg[y as usize] {
                    pc2 + 2
                } else {
                    pc2
                };
                Ok(())
            },
            Instr::JmpV0(nnn) => {
                self.pc = self.v_reg[0] as u16 + nnn;
                Ok(())
            },
            Instr::SetIndex(nnn) => {
                self.i_reg = nnn;
                self.pc = pc2;
                Ok(())
            },
            Instr::AddIndex(x) => {
                let vx = self.v_reg[x as usize];
                let wide: u32 = self.i_reg as u32 + vx as u32;
                self.i_reg = (wide % 0x10000) as u16;
                self.pc = pc2;
                Ok(())
            },
            Instr::Font(x) => {
                self.i_reg = self.v_reg[x as usize] as u16 * 5;
                self.pc = pc2;
                Ok(())
            },
            _ => {
                // the dispatcher sends only this family's instructions here
                proof {
                    assert(false);
                }
                Ok(())
            },
        }
    }

    /// The memory, framebuffer, key and timer instructions.
    #[verifier::rlimit(100)]
    #[verifier::spinoff_prover]
    fn execute_mem(&mut self, ins: Instr, rnd: u8) -> (res: Result<(), Fault>)
        requires
            old(self).wf(),
            ins.wf(),
            old(self)@.pc + 2 <= RAM_SIZE,
            ins matches Instr::Cls || ins matches Instr::Draw(..) || ins matches Instr::SkipKey(..) || ins matches Instr::SkipNoKey(..) || ins matches Instr::GetDelay(..) || ins matches Instr::WaitKey(..) || ins matches Instr::SetDelay(..) || ins matches Instr::SetSound(..) || ins matches Instr::Bcd(..) || ins matches Instr::StoreRegs(..) || ins matches Instr::LoadRegs(..),
        ensures
            final(self).wf(),
            match spec_run(old(self)@, ins, rnd) {
                Ok(s2) => res is Ok && final(self)@ == s2,
                Err(f) => res == Err::<(), Fault>(f) && final(self)@ == old(self)@,
            },
    {
        let pc2: u16 = self.pc + 2;
        match ins {
            Instr::Cls => {
                self.screen = false_cells(SCREEN_WIDTH * SCREEN_HEIGHT);
                self.pc = pc2;
                proof {
                    assert(self@.screen =~= Seq::new(old(self)@.screen.len(), |j: int| false));
                }
                Ok(())
            },
            Instr::Draw(x, y, n) => {
                if n > 0 && (self.i_reg as usize) + (n as usize) > RAM_SIZE {
                    Err(Fault::MemoryOutOfBounds)
                } else {
                    let x0 = self.v_reg[x as usize];
                    let y0 = self.v_reg[y as usize];
                    let coll = draw_sprite(&mut self.screen, &self.ram, self.i_reg, x0, y0, n);
                    proof {
                        lemma_draw_rows_len(
                            old(self)@.screen,
                            old(self)@.ram,
                            old(self)@.i,
                            x0,
                            y0,
                            n as int,
                        );
                    }
                    self.v_reg[15] = if coll {
                        1
                    } else {
                        0
                    };
                    self.pc = pc2;
                    Ok(())
                }
            },
            Instr::SkipKey(x) => {
                let vx = self.v_reg[x as usize];
                if vx >= 16 {
                    Err(Fault::KeyOutOfRange)
                } else {
                    self.pc = if self.keys[vx as usize] {
                        pc2 + 2
                    } else {
                        pc2
                    };
                    Ok(())
                }
            },
            Instr::SkipNoKey(x) => {
                let vx = self.v_reg[x as usize];
                if vx >= 16 {
                    Err(Fault::KeyOutOfRange)
                } else {
                    self.pc = if !self.keys[vx as usize] {
                        pc2 + 2
                    } else {
                        pc2
                    };
                    Ok(())
                }
            },
            Instr::GetDelay(x) => {
                self.v_reg[x as usize] = self.dt;
                self.pc = pc2;
                Ok(())
            },
            Instr::WaitKey(x) => {
                let mut idx: usize = 0;
                while idx < NUM_KEYS && !self.keys[idx]
                    invariant
                        idx <= NUM_KEYS,
                        self.wf(),
                        forall|j: int| 0 <= j < idx ==> !self@.keys[j],
                    decreases NUM_KEYS - idx,
                {
                    idx = idx + 1;
                }
                if idx < NUM_KEYS {
                    proof {
                        lemma_first_key_skip(self@.keys, idx as int);
                    }
                    self.v_reg[x as usize] = idx as u8;
                    self.pc = pc2;
                } else {
                    proof {
                        lemma_first_key_skip(self@.keys, 16);
                    }
                    // the program counter stays on this instruction, so the
                    // same wait runs again on the next step
                }
                Ok(())
            },
            Instr::SetDelay(x) => {
                self.dt = self.v_reg[x as usize];
                self.pc = pc2;
                Ok(())
            },
            Instr::SetSound(x) => {
                self.st = self.v_reg[x as usize];
                self.pc = pc2;
                Ok(())
            },
            Instr::Bcd(x) => {
                if self.i_reg > 4093 {
                    Err(Fault::MemoryOutOfBounds)
                } else {
                    let vx = self.v_reg[x as usize];
                    let i = self.i_reg as usize;
                    self.ram[i] = vx / 100;
                    self.ram[i + 1] = (vx / 10) % 10;
                    self.ram[i + 2] = vx % 10;
                    self.pc = pc2;
                    Ok(())
                }
            },
            Instr::StoreRegs(x) => {
                if (self.i_reg as usize) + (x as usize) > RAM_SIZE - 1 {
                    Err(Fault::MemoryOutOfBounds)
                } else {
                    let xi = x as usize;
                    let mut tmp: Vec<u8> = Vec::new();
                    let mut k: usize = 0;
                    while k <= xi
                        invariant
                            xi < 16,
                            k <= xi + 1,
                            self.wf(),
                            tmp@.len() == k,
                            forall|j: int| 0 <= j < k ==> tmp@[j] == self@.v[j],
                        decreases xi + 1 - k,
                    {
                        let b = self.v_reg[k];
                        tmp.push(b);
                        k = k + 1;
                    }
                    proof {
                        assert(tmp@ =~= self@.v.take(x as int + 1));
                    }
                    write_block(&mut self.ram, self.i_reg as usize, tmp.as_slice());
                    self.pc = pc2;
                    Ok(())
                }
            },
            Instr::LoadRegs(x) => {
                if (self.i_reg as usize) + (x as usize) > RAM_SIZE - 1 {
                    Err(Fault::MemoryOutOfBounds)
                } else {
                    let xi = x as usize;
                    let i = self.i_reg as usize;
                    let mut newv: Vec<u8> = Vec::new();
                    let mut k: usize = 0;
                    while k < NUM_REGS
                        invariant
                            xi < 16,
                            i + xi <= RAM_SIZE - 1,
                            k <= NUM_REGS,
                            self.wf(),
                            i == self@.i,
                            newv@.len() == k,
                            forall|j: int| 0 <= j < k && j <= xi ==> newv@[j] == self@.ram[i + j],
                            forall|j: int| 0 <= j < k && j > xi ==> newv@[j] == self@.v[j],
                        decreases NUM_REGS - k,
                    {
                        let b = if k <= xi {
                            self.ram[i + k]
                        } else {
                            self.v_reg[k]
                        };
                        newv.push(b);
                        k = k + 1;
                    }
                    self.v_reg = newv;
                    proof {
                        assert(self@.v =~= Seq::new(
                            16,
                            |kk: int|
                                if kk <= x as int {
                                    old(self)@.ram[old(self)@.i + kk]
                                } else {
                                    old(self)@.v[kk]
                                },
                        ));
                    }
                    self.pc = pc2;
                    Ok(())
                }
            },
            _ => {
                // the dispatcher sends only this family's instructions here
                proof {
                    assert(false);
                }
                Ok(())
            },
        }
    }

    /// Execute exactly one instruction with `rnd` as the byte the random
    /// source supplies: fetch the word at the program counter, decode it,
    /// and apply it. On a fault the machine is left exactly as it was.
    pub fn tick_with(&mut self, rnd: u8) -> (res: Result<(), Fault>)
        requires
            old(self).wf(),
        ensures
            final(self).wf(),
            step_to(old(self)@, rnd, final(self)@, res),
    {
        match self.fetch() {
            Err(f) => Err(f),
            Ok(op) => match decode(op) {
                None => Err(Fault::UnknownOpcode),
                Some(ins) => self.execute(ins, rnd),
            },
        }
    }

    /// Execute exactly one instruction, drawing the random byte the
    /// random-valued instruction uses from the process's generator. On a
    /// fault the machine is left exactly as it was.
    pub fn tick(&mut self) -> (res: Result<(), Fault>)
        requires
            old(self).wf(),
        ensures
            final(self).wf(),
            exists|r: u8| #[trigger] step_to(old(self)@, r, final(self)@, res),
    {
        let rnd: u8 = random_byte();
        let res = self.tick_with(rnd);
        proof {
            assert(step_to(old(self)@, rnd, self@, res));
        }
        res
    }
}

} // verus!

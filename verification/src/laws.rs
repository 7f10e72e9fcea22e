//! Laws of the instruction set, proved once and for all over the abstract
//! semantics: facts that relate several instructions or hold of every
//! machine state.

use vstd::prelude::*;

use crate::instr::Instr;
use crate::instr::spec_decode;
use crate::semantics::dec_timer;
use crate::semantics::draw_cols;
use crate::semantics::draw_rows;
use crate::semantics::fetched_op;
use crate::semantics::lemma_first_key_skip;
use crate::semantics::next_pc;
use crate::semantics::pix_index;
use crate::semantics::spec_run;
use crate::semantics::spec_step;
use crate::semantics::sprite_bit;
use crate::view::EmuView;
use vstd::arithmetic::div_mod::lemma_fundamental_div_mod;

verus! {

/// Setting a register to an immediate and then adding an immediate with the
/// wrapping add leaves the register holding the modular sum, and any other
/// register — the flag register included — untouched.
pub proof fn law_set_then_add_imm(s: EmuView, x: u8, nn: u8, nn2: u8, r1: u8, r2: u8)
    requires
        s.wf(),
        x < 16,
    ensures
        spec_run(s, Instr::SetImm(x, nn), r1) is Ok,
        spec_run(spec_run(s, Instr::SetImm(x, nn), r1)->Ok_0, Instr::AddImm(x, nn2), r2) is Ok,
        ({
            let s2 = spec_run(
                spec_run(s, Instr::SetImm(x, nn), r1)->Ok_0,
                Instr::AddImm(x, nn2),
                r2,
            )->Ok_0;
            &&& s2.v[x as int] == ((nn + nn2) % 256) as u8
            &&& forall|k: int| 0 <= k < 16 && k != x ==> s2.v[k] == s.v[k]
        }),
{
}

/// The register add: the destination takes the modular sum and the flag
/// register reports exactly whether the 8-bit addition overflowed.
pub proof fn law_add_reg_carry(s: EmuView, x: u8, y: u8, r: u8)
    requires
        s.wf(),
        x < 16,
        y < 16,
    ensures
        spec_run(s, Instr::AddReg(x, y), r) is Ok,
        ({
            let s2 = spec_run(s, Instr::AddReg(x, y), r)->Ok_0;
            &&& s2.v[15] == if s.v[x as int] + s.v[y as int] > 255 {
                1u8
            } else {
                0u8
            }
            &&& x != 15 ==> s2.v[x as int] == ((s.v[x as int] + s.v[y as int]) % 256) as u8
        }),
{
}

/// The register subtract: the destination takes the modular difference and
/// the flag register is 0 exactly when the subtraction borrowed.
pub proof fn law_sub_reg_borrow(s: EmuView, x: u8, y: u8, r: u8)
    requires
        s.wf(),
        x < 16,
        y < 16,
    ensures
        spec_run(s, Instr::SubReg(x, y), r) is Ok,
        ({
            let s2 = spec_run(s, Instr::SubReg(x, y), r)->Ok_0;
            &&& s2.v[15] == if s.v[x as int] < s.v[y as int] {
                0u8
            } else {
                1u8
            }
            &&& x != 15 ==> s2.v[x as int] == ((s.v[x as int] - s.v[y as int]) % 256) as u8
        }),
{
}

/// Storing registers `V0..=Vx` at `I` and loading them back at the same `I`
/// and `x` restores the stored registers exactly, whatever happened to the
/// register file in between; the registers above `Vx` keep the in-between
/// values.
pub proof fn law_store_load_round_trip(s: EmuView, x: u8, mid_v: Seq<u8>, r1: u8, r2: u8)
    requires
        s.wf(),
        x < 16,
        s.i + x <= 4095,
        mid_v.len() == 16,
    ensures
        spec_run(s, Instr::StoreRegs(x), r1) is Ok,
        ({
            let s1 = spec_run(s, Instr::StoreRegs(x), r1)->Ok_0;
            let sm = EmuView { v: mid_v, ..s1 };
            &&& spec_run(sm, Instr::LoadRegs(x), r2) is Ok
            &&& ({
                let s2 = spec_run(sm, Instr::LoadRegs(x), r2)->Ok_0;
                &&& forall|k: int| 0 <= k <= x ==> s2.v[k] == s.v[k]
                &&& forall|k: int| x < k < 16 ==> s2.v[k] == mid_v[k]
            })
        }),
{
}

/// While no key is pressed, the key-wait instruction leaves the whole
/// machine — the program counter and every register included — exactly as
/// it was: a step that fetches it is the identity, so repeating the step
/// repeats the same wait, however often, until a key arrives.
pub proof fn law_wait_key_blocks(s: EmuView, x: u8, r: u8)
    requires
        s.wf(),
        x < 16,
        s.pc + 2 <= u16::MAX,
        forall|k: int| 0 <= k < 16 ==> !s.keys[k],
    ensures
        spec_run(s, Instr::WaitKey(x), r) == Ok::<EmuView, crate::instr::Fault>(s),
        s.pc + 1 < 4096 && spec_decode(fetched_op(s)) == Some(Instr::WaitKey(x)) ==> spec_step(
            s,
            r,
        ) == Ok::<EmuView, crate::instr::Fault>(s),
{
    lemma_first_key_skip(s.keys, 16);
    let s1 = spec_run(s, Instr::WaitKey(x), r)->Ok_0;
    assert(s1.pc == s.pc);
    assert(s1 == s);
}

/// Once a key is pressed, the key-wait instruction stores the lowest
/// pressed key index in its register and lets the program counter advance
/// normally.
pub proof fn law_wait_key_proceeds(s: EmuView, x: u8, k: int, r: u8)
    requires
        s.wf(),
        x < 16,
        0 <= k < 16,
        s.keys[k],
        forall|j: int| 0 <= j < k ==> !s.keys[j],
    ensures
        spec_run(s, Instr::WaitKey(x), r) == Ok::<EmuView, crate::instr::Fault>(
            EmuView { pc: next_pc(s.pc), v: s.v.update(x as int, k as u8), ..s },
        ),
{
    lemma_first_key_skip(s.keys, k);
}

/// The value a timer holds after `n` cadence ticks with no instruction
/// re-setting it.
pub open spec fn timer_after(t: u8, n: nat) -> u8
    decreases n,
{
    if n == 0 {
        t
    } else {
        dec_timer(timer_after(t, (n - 1) as nat))
    }
}

/// Timer floor: however many cadence ticks fire, a timer never rises and
/// never wraps below zero, and a timer at zero stays at zero until an
/// instruction re-sets it.
pub proof fn law_timer_floor(t: u8, n: nat)
    ensures
        timer_after(t, n) <= t,
        t == 0 ==> timer_after(t, n) == 0,
    decreases n,
{
    if n > 0 {
        law_timer_floor(t, (n - 1) as nat);
    }
}

/// Two different columns of one sprite row land on two different pixels:
/// the row wraps around the right screen edge but never folds onto itself.
proof fn lemma_pix_distinct(x0: u8, y0: u8, row: int, c1: int, c2: int)
    requires
        0 <= c1 < c2 < 8,
    ensures
        pix_index(x0, y0, row, c1) != pix_index(x0, y0, row, c2),
{
    lemma_fundamental_div_mod(x0 + c1, 64);
    lemma_fundamental_div_mod(x0 + c2, 64);
}

/// Whether any of the first `ncols` set sprite columns lands on pixel `idx`.
spec fn row_hit(b: u8, x0: u8, y0: u8, row: int, ncols: int, idx: int) -> bool {
    exists|c: int| 0 <= c < ncols && sprite_bit(b, c) && pix_index(x0, y0, row, c) == idx
}

/// What XOR-drawing one sprite row does, pixel by pixel: every set column's
/// pixel is toggled, every other pixel is untouched, and the collision flag
/// is set exactly when some set column's pixel was already lit.
proof fn lemma_draw_cols_chars(screen: Seq<bool>, b: u8, x0: u8, y0: u8, row: int, ncols: int)
    requires
        screen.len() == crate::SCREEN_WIDTH * crate::SCREEN_HEIGHT,
        0 <= ncols <= 8,
    ensures
        draw_cols(screen, b, x0, y0, row, ncols).0.len() == screen.len(),
        forall|c: int|
            0 <= c < ncols && sprite_bit(b, c) ==> draw_cols(screen, b, x0, y0, row, ncols).0[
                pix_index(x0, y0, row, c)
            ] == !screen[pix_index(x0, y0, row, c)],
        forall|idx: int|
            0 <= idx < screen.len() && !row_hit(b, x0, y0, row, ncols, idx) ==> draw_cols(
                screen,
                b,
                x0,
                y0,
                row,
                ncols,
            ).0[idx] == screen[idx],
        draw_cols(screen, b, x0, y0, row, ncols).1 == exists|c: int|
            0 <= c < ncols && sprite_bit(b, c) && screen[pix_index(x0, y0, row, c)],
    decreases ncols,
{
    if ncols > 0 {
        lemma_draw_cols_chars(screen, b, x0, y0, row, ncols - 1);
        let c0 = ncols - 1;
        let prev = draw_cols(screen, b, x0, y0, row, c0);
        let res = draw_cols(screen, b, x0, y0, row, ncols);
        if sprite_bit(b, c0) {
            let idx0 = pix_index(x0, y0, row, c0);
            assert forall|c: int| 0 <= c < c0 implies pix_index(x0, y0, row, c) != idx0 by {
                lemma_pix_distinct(x0, y0, row, c, c0);
            }
            assert(!row_hit(b, x0, y0, row, c0, idx0));
            assert(prev.0[idx0] == screen[idx0]);
            // the collision flag: forward direction
            if res.1 {
                if prev.1 {
                    let cw = choose|c: int|
                        0 <= c < c0 && sprite_bit(b, c) && screen[pix_index(x0, y0, row, c)];
                    assert(0 <= cw < ncols && sprite_bit(b, cw) && screen[
                        pix_index(x0, y0, row, cw)
                    ]);
                } else {
                    assert(screen[idx0]);
                }
            }
            // and backward
            if exists|c: int| 0 <= c < ncols && sprite_bit(b, c) && screen[
                pix_index(x0, y0, row, c)
            ] {
                let cw = choose|c: int|
                    0 <= c < ncols && sprite_bit(b, c) && screen[pix_index(x0, y0, row, c)];
                if cw < c0 {
                    assert(prev.1);
                } else {
                    assert(screen[idx0]);
                }
                assert(res.1);
            }
            // untouched pixels: anything the first c0 columns left alone and
            // that is not idx0 keeps its value
            assert forall|idx: int|
                0 <= idx < screen.len() && !row_hit(b, x0, y0, row, ncols, idx) implies res.0[idx]
                == screen[idx] by {
                assert(!row_hit(b, x0, y0, row, c0, idx));
                assert(idx != idx0);
            }
            // toggled pixels
            assert forall|c: int| 0 <= c < ncols && sprite_bit(b, c) implies res.0[pix_index(
                x0,
                y0,
                row,
                c,
            )] == !screen[pix_index(x0, y0, row, c)] by {
                if c < c0 {
                    lemma_pix_distinct(x0, y0, row, c, c0);
                }
            }
        } else {
            assert forall|idx: int|
                0 <= idx < screen.len() && !row_hit(b, x0, y0, row, ncols, idx) implies res.0[idx]
                == screen[idx] by {
                assert(!row_hit(b, x0, y0, row, c0, idx));
            }
            assert forall|c: int| 0 <= c < ncols && sprite_bit(b, c) implies res.0[pix_index(
                x0,
                y0,
                row,
                c,
            )] == !screen[pix_index(x0, y0, row, c)] by {
                assert(c < c0);
            }
            if exists|c: int| 0 <= c < ncols && sprite_bit(b, c) && screen[
                pix_index(x0, y0, row, c)
            ] {
                let cw = choose|c: int|
                    0 <= c < ncols && sprite_bit(b, c) && screen[pix_index(x0, y0, row, c)];
                assert(cw < c0);
                assert(prev.1);
            }
        }
    }
}

/// A byte other than zero has a set sprite column, and the zero byte has
/// none.
proof fn lemma_byte_bits(b: u8)
    ensures
        b != 0 ==> exists|c: int| 0 <= c < 8 && sprite_bit(b, c),
        b == 0 ==> forall|c: int| 0 <= c < 8 ==> !sprite_bit(b, c),
{
    assert(b != 0 ==> ((b >> 7u8) & 1 == 1 || (b >> 6u8) & 1 == 1 || (b >> 5u8) & 1 == 1 || (b
        >> 4u8) & 1 == 1 || (b >> 3u8) & 1 == 1 || (b >> 2u8) & 1 == 1 || (b >> 1u8) & 1 == 1 || (b
        >> 0u8) & 1 == 1)) by (bit_vector);
    assert(b == 0 ==> ((b >> 7u8) & 1 == 0 && (b >> 6u8) & 1 == 0 && (b >> 5u8) & 1 == 0 && (b
        >> 4u8) & 1 == 0 && (b >> 3u8) & 1 == 0 && (b >> 2u8) & 1 == 0 && (b >> 1u8) & 1 == 0 && (b
        >> 0u8) & 1 == 0)) by (bit_vector);
    assert(sprite_bit(b, 0) == ((b >> 7u8) & 1 == 1));
    assert(sprite_bit(b, 1) == ((b >> 6u8) & 1 == 1));
    assert(sprite_bit(b, 2) == ((b >> 5u8) & 1 == 1));
    assert(sprite_bit(b, 3) == ((b >> 4u8) & 1 == 1));
    assert(sprite_bit(b, 4) == ((b >> 3u8) & 1 == 1));
    assert(sprite_bit(b, 5) == ((b >> 2u8) & 1 == 1));
    assert(sprite_bit(b, 6) == ((b >> 1u8) & 1 == 1));
    assert(sprite_bit(b, 7) == ((b >> 0u8) & 1 == 1));
    if b == 0 {
        assert forall|c: int| 0 <= c < 8 implies !sprite_bit(b, c) by {
            assert(c == 0 || c == 1 || c == 2 || c == 3 || c == 4 || c == 5 || c == 6 || c == 7);
        }
    }
}

/// Drawing a one-row sprite on pixels that are all clear reports no
/// collision; drawing it again at the same coordinates toggles exactly the
/// same pixels off, restoring the framebuffer, and reports a collision
/// exactly when the sprite has any set pixel. The sprite's columns wrap at
/// the screen edge, so this holds at every coordinate.
#[verifier::rlimit(100)]
pub proof fn law_draw_twice_restores(s: EmuView, x: u8, y: u8, r1: u8, r2: u8)
    requires
        s.wf(),
        x < 16,
        y < 16,
        x != 15,
        y != 15,
        s.i <= 4095,
        forall|c: int|
            0 <= c < 8 && sprite_bit(s.ram[s.i as int], c) ==> !s.screen[pix_index(
                s.v[x as int],
                s.v[y as int],
                0,
                c,
            )],
    ensures
        spec_run(s, Instr::Draw(x, y, 1), r1) is Ok,
        ({
            let s1 = spec_run(s, Instr::Draw(x, y, 1), r1)->Ok_0;
            &&& s1.v[15] == 0
            &&& spec_run(s1, Instr::Draw(x, y, 1), r2) is Ok
            &&& ({
                let s2 = spec_run(s1, Instr::Draw(x, y, 1), r2)->Ok_0;
                &&& s2.screen == s.screen
                &&& s2.v[15] == if s.ram[s.i as int] == 0 {
                    0u8
                } else {
                    1u8
                }
            })
        }),
{
    let x0 = s.v[x as int];
    let y0 = s.v[y as int];
    let b = s.ram[s.i as int];
    let dr1 = draw_rows(s.screen, s.ram, s.i, x0, y0, 1);
    assert(draw_rows(s.screen, s.ram, s.i, x0, y0, 0) == (s.screen, false));
    assert(dr1 == draw_cols(s.screen, b, x0, y0, 0, 8));
    lemma_draw_cols_chars(s.screen, b, x0, y0, 0, 8);
    assert(!dr1.1);
    let s1 = spec_run(s, Instr::Draw(x, y, 1), r1)->Ok_0;
    assert(s1.screen == dr1.0);
    assert(s1.v[x as int] == x0 && s1.v[y as int] == y0);
    assert(s1.ram == s.ram && s1.i == s.i);
    let dr2 = draw_rows(s1.screen, s1.ram, s1.i, x0, y0, 1);
    assert(draw_rows(s1.screen, s1.ram, s1.i, x0, y0, 0) == (s1.screen, false));
    assert(dr2 == draw_cols(dr1.0, b, x0, y0, 0, 8));
    lemma_draw_cols_chars(dr1.0, b, x0, y0, 0, 8);
    lemma_byte_bits(b);
    // the second pass sees exactly the pixels the first pass lit
    if b != 0 {
        let cw = choose|c: int| 0 <= c < 8 && sprite_bit(b, c);
        assert(dr1.0[pix_index(x0, y0, 0, cw)] == !s.screen[pix_index(x0, y0, 0, cw)]);
        assert(dr2.1);
    }
    // and toggling them again restores the original framebuffer
    assert forall|idx: int| 0 <= idx < s.screen.len() implies dr2.0[idx] == s.screen[idx] by {
        if row_hit(b, x0, y0, 0, 8, idx) {
            let c = choose|cc: int|
                0 <= cc < 8 && sprite_bit(b, cc) && pix_index(x0, y0, 0, cc) == idx;
            assert(dr1.0[idx] == !s.screen[idx]);
            assert(dr2.0[idx] == !dr1.0[idx]);
        }
    }
    assert(dr2.0 =~= s.screen);
}

/// The machine after executing one `Call` per address in `addrs`, in order:
/// each call is nested inside the previous one.
pub open spec fn run_calls(s: EmuView, addrs: Seq<u16>, r: u8) -> EmuView
    decreases addrs.len(),
{
    if addrs.len() == 0 {
        s
    } else {
        run_calls(
            spec_run(s, Instr::Call(addrs[0]), r)->Ok_0,
            addrs.subrange(1, addrs.len() as int),
            r,
        )
    }
}

/// Every one of those calls succeeds (none overflows the stack).
pub open spec fn calls_ok(s: EmuView, addrs: Seq<u16>, r: u8) -> bool
    decreases addrs.len(),
{
    addrs.len() == 0 || (spec_run(s, Instr::Call(addrs[0]), r) is Ok && calls_ok(
        spec_run(s, Instr::Call(addrs[0]), r)->Ok_0,
        addrs.subrange(1, addrs.len() as int),
        r,
    ))
}

/// The machine after executing `n` `Ret` instructions in a row.
pub open spec fn run_rets(s: EmuView, n: int, r: u8) -> EmuView
    decreases n,
{
    if n <= 0 {
        s
    } else {
        run_rets(spec_run(s, Instr::Ret, r)->Ok_0, n - 1, r)
    }
}

/// Every one of those returns succeeds (none underflows the stack).
pub open spec fn rets_ok(s: EmuView, n: int, r: u8) -> bool
    decreases n,
{
    n <= 0 || (spec_run(s, Instr::Ret, r) is Ok && rets_ok(
        spec_run(s, Instr::Ret, r)->Ok_0,
        n - 1,
        r,
    ))
}

/// A run of `a + b` returns is a run of `a` returns followed by a run of
/// `b` returns, and it succeeds exactly when both parts do.
proof fn lemma_run_rets_split(s: EmuView, a: int, b: int, r: u8)
    requires
        a >= 0,
        b >= 0,
    ensures
        run_rets(s, a + b, r) == run_rets(run_rets(s, a, r), b, r),
        rets_ok(s, a + b, r) <==> (rets_ok(s, a, r) && rets_ok(run_rets(s, a, r), b, r)),
    decreases a,
{
    if a > 0 {
        lemma_run_rets_split(spec_run(s, Instr::Ret, r)->Ok_0, a - 1, b, r);
    }
}

/// What one successful `Call` does: push the address of the next
/// instruction, then jump.
proof fn lemma_call_effect(s: EmuView, a: u16, r: u8)
    requires
        s.stack.len() < 16,
    ensures
        spec_run(s, Instr::Call(a), r) == Ok::<EmuView, crate::instr::Fault>(
            EmuView { pc: a, stack: s.stack.push(next_pc(s.pc)), ..s },
        ),
{
}

/// What one successful `Ret` does: pop the most recent return address into
/// the program counter.
proof fn lemma_ret_effect(s: EmuView, r: u8)
    requires
        s.stack.len() > 0,
    ensures
        spec_run(s, Instr::Ret, r) == Ok::<EmuView, crate::instr::Fault>(
            EmuView { pc: s.stack.last(), stack: s.stack.drop_last(), ..s },
        ),
{
}

/// A `Ret` from a state that differs from `s` only in its program counter
/// and in one extra return address `w` on its stack lands at `w` with
/// everything else as in `s`.
proof fn lemma_ret_restores(s: EmuView, t: EmuView, w: u16, r: u8)
    requires
        t.stack == s.stack.push(w),
        t.ram == s.ram,
        t.screen == s.screen,
        t.v == s.v,
        t.i == s.i,
        t.keys == s.keys,
        t.dt == s.dt,
        t.st == s.st,
    ensures
        spec_run(t, Instr::Ret, r) == Ok::<EmuView, crate::instr::Fault>(
            EmuView { pc: w, ..s },
        ),
        rets_ok(t, 1, r),
        run_rets(t, 1, r) == (EmuView { pc: w, ..s }),
{
    lemma_ret_effect(t, r);
    assert(t.stack.drop_last() =~= s.stack);
    let u = spec_run(t, Instr::Ret, r)->Ok_0;
    assert(rets_ok(u, 0, r));
    assert(run_rets(u, 0, r) == u);
}

/// Stack discipline: any number of nested calls followed by the same number
/// of returns all succeed, as long as they fit the stack's capacity, and
/// they leave the machine exactly where straight-line execution would have:
/// at the address immediately after the outermost call, with the stack and
/// every other part of the state restored.
#[verifier::rlimit(100)]
pub proof fn law_stack_discipline(s: EmuView, addrs: Seq<u16>, r: u8)
    requires
        s.wf(),
        s.stack.len() + addrs.len() <= 16,
    ensures
        calls_ok(s, addrs, r),
        rets_ok(run_calls(s, addrs, r), addrs.len() as int, r),
        run_calls(s, addrs, r).stack.len() == s.stack.len() + addrs.len(),
        addrs.len() > 0 ==> run_rets(run_calls(s, addrs, r), addrs.len() as int, r) == (EmuView {
            pc: next_pc(s.pc),
            ..s
        }),
        addrs.len() == 0 ==> run_rets(run_calls(s, addrs, r), addrs.len() as int, r) == s,
    decreases addrs.len(),
{
    if addrs.len() > 0 {
        let n = addrs.len() as int;
        lemma_call_effect(s, addrs[0], r);
        let s1 = spec_run(s, Instr::Call(addrs[0]), r)->Ok_0;
        let rest = addrs.subrange(1, n);
        law_stack_discipline(s1, rest, r);
        let sc = run_calls(s1, rest, r);
        assert(run_calls(s, addrs, r) == sc);
        let t = run_rets(sc, n - 1, r);
        assert(t.stack == s1.stack);
        lemma_run_rets_split(sc, n - 1, 1, r);
        lemma_ret_restores(s, t, next_pc(s.pc), r);
        assert(run_rets(sc, n, r) == run_rets(t, 1, r));
    }
}

} // verus!

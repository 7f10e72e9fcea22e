//! Instruction scenarios: arithmetic flags, BCD, drawing, key waiting,
//! register store/load round trips and call/return nesting.

use chip8_core::Emu;
use chip8_core::instr::Fault;
use chip8_core::instr::Instr;
use chip8_core::instr::decode;

fn pixel(e: &Emu, x: usize, y: usize) -> bool {
    e.get_display()[x + 64 * y]
}

#[test]
fn set_then_add_imm_wraps_and_leaves_flag_alone() {
    let mut e = Emu::new();
    // V0 = 0xAB; V0 += 0x70 (wraps to 0x1B); no flag write
    e.load(&[0x60, 0xAB, 0x70, 0x70]);
    e.tick().unwrap();
    assert_eq!(e.get_v(0), 0xAB);
    e.tick().unwrap();
    assert_eq!(e.get_v(0), 0x1B);
    assert_eq!(e.get_v(0xF), 0);
}

#[test]
fn add_reg_sets_carry_on_overflow() {
    let mut e = Emu::new();
    // V0 = 0xFF; V1 = 0x01; V0 += V1
    e.load(&[0x60, 0xFF, 0x61, 0x01, 0x80, 0x14]);
    for _ in 0..3 {
        e.tick().unwrap();
    }
    assert_eq!(e.get_v(0), 0x00);
    assert_eq!(e.get_v(0xF), 1);
}

#[test]
fn add_reg_clears_carry_without_overflow() {
    let mut e = Emu::new();
    e.load(&[0x60, 0x12, 0x61, 0x34, 0x80, 0x14]);
    for _ in 0..3 {
        e.tick().unwrap();
    }
    assert_eq!(e.get_v(0), 0x46);
    assert_eq!(e.get_v(0xF), 0);
}

#[test]
fn sub_reg_borrow_clears_flag() {
    let mut e = Emu::new();
    // V0 = 0x01; V1 = 0x02; V0 -= V1
    e.load(&[0x60, 0x01, 0x61, 0x02, 0x80, 0x15]);
    for _ in 0..3 {
        e.tick().unwrap();
    }
    assert_eq!(e.get_v(0), 0xFF);
    assert_eq!(e.get_v(0xF), 0);
}

#[test]
fn sub_reg_no_borrow_sets_flag() {
    let mut e = Emu::new();
    e.load(&[0x60, 0x02, 0x61, 0x01, 0x80, 0x15]);
    for _ in 0..3 {
        e.tick().unwrap();
    }
    assert_eq!(e.get_v(0), 0x01);
    assert_eq!(e.get_v(0xF), 1);
}

#[test]
fn sub_from_reverses_operands() {
    let mut e = Emu::new();
    // V0 = 0x05; V1 = 0x07; V0 = V1 - V0
    e.load(&[0x60, 0x05, 0x61, 0x07, 0x80, 0x17]);
    for _ in 0..3 {
        e.tick().unwrap();
    }
    assert_eq!(e.get_v(0), 0x02);
    assert_eq!(e.get_v(0xF), 1);
}

#[test]
fn shift_right_captures_low_bit() {
    let mut e = Emu::new();
    // V0 = 0b0000_0011; V0 >>= 1
    e.load(&[0x60, 0x03, 0x80, 0x06]);
    e.tick().unwrap();
    e.tick().unwrap();
    assert_eq!(e.get_v(0), 0b0000_0001);
    assert_eq!(e.get_v(0xF), 1);
}

#[test]
fn shift_left_captures_high_bit() {
    let mut e = Emu::new();
    // V0 = 0b1000_0001; V0 <<= 1
    e.load(&[0x60, 0x81, 0x80, 0x0E]);
    e.tick().unwrap();
    e.tick().unwrap();
    assert_eq!(e.get_v(0), 0b0000_0010);
    assert_eq!(e.get_v(0xF), 1);
}

#[test]
fn bitwise_ops() {
    let mut e = Emu::new();
    // V0 = 0x0F; V1 = 0x35; V0 |= V1
    e.load(&[0x60, 0x0F, 0x61, 0x35, 0x80, 0x11]);
    for _ in 0..3 {
        e.tick().unwrap();
    }
    assert_eq!(e.get_v(0), 0x3F);

    let mut e2 = Emu::new();
    e2.load(&[0x60, 0x0F, 0x61, 0x35, 0x80, 0x12]);
    for _ in 0..3 {
        e2.tick().unwrap();
    }
    assert_eq!(e2.get_v(0), 0x05);

    let mut e3 = Emu::new();
    e3.load(&[0x60, 0x0F, 0x61, 0x35, 0x80, 0x13]);
    for _ in 0..3 {
        e3.tick().unwrap();
    }
    assert_eq!(e3.get_v(0), 0x3A);
}

#[test]
fn mov_copies_register() {
    let mut e = Emu::new();
    e.load(&[0x61, 0x42, 0x80, 0x10]);
    e.tick().unwrap();
    e.tick().unwrap();
    assert_eq!(e.get_v(0), 0x42);
}

#[test]
fn skips_compare_exactly() {
    // skip taken: V0 == nn
    let mut e = Emu::new();
    e.load(&[0x60, 0xAB, 0x30, 0xAB]);
    e.tick().unwrap();
    e.tick().unwrap();
    assert_eq!(e.get_pc(), 0x206);

    // skip not taken: V0 != nn under 3xnn
    let mut e2 = Emu::new();
    e2.load(&[0x60, 0xAB, 0x30, 0xAC]);
    e2.tick().unwrap();
    e2.tick().unwrap();
    assert_eq!(e2.get_pc(), 0x204);

    // 4xnn skips on inequality
    let mut e3 = Emu::new();
    e3.load(&[0x60, 0xAB, 0x40, 0xAC]);
    e3.tick().unwrap();
    e3.tick().unwrap();
    assert_eq!(e3.get_pc(), 0x206);

    // 5xy0 skips when registers are equal
    let mut e4 = Emu::new();
    e4.load(&[0x60, 0x07, 0x61, 0x07, 0x50, 0x10]);
    for _ in 0..3 {
        e4.tick().unwrap();
    }
    assert_eq!(e4.get_pc(), 0x208);

    // 9xy0 skips when registers differ
    let mut e5 = Emu::new();
    e5.load(&[0x60, 0x07, 0x61, 0x08, 0x90, 0x10]);
    for _ in 0..3 {
        e5.tick().unwrap();
    }
    assert_eq!(e5.get_pc(), 0x208);
}

#[test]
fn jumps_and_index_register() {
    let mut e = Emu::new();
    e.load(&[0x13, 0x45]);
    e.tick().unwrap();
    assert_eq!(e.get_pc(), 0x345);

    let mut e2 = Emu::new();
    e2.load(&[0x60, 0x10, 0xB3, 0x00]);
    e2.tick().unwrap();
    e2.tick().unwrap();
    assert_eq!(e2.get_pc(), 0x310);

    let mut e3 = Emu::new();
    e3.load(&[0xA1, 0x23]);
    e3.tick().unwrap();
    assert_eq!(e3.get_i(), 0x123);
}

#[test]
fn add_index_accumulates_and_wraps_at_16_bits() {
    let mut e = Emu::new();
    // I = 0xFFF; V0 = 0xFF; then a loop of "I += V0; jump back"
    e.load(&[0xAF, 0xFF, 0x60, 0xFF, 0xF0, 0x1E, 0x12, 0x04]);
    e.tick().unwrap();
    e.tick().unwrap();
    // run 260 add/jump rounds: 0xFFF + 260 * 0xFF exceeds 16 bits
    for _ in 0..260 {
        e.tick().unwrap();
        e.tick().unwrap();
    }
    assert_eq!(e.get_i(), ((0xFFFu32 + 260 * 0xFF) % 0x10000) as u16);
}

#[test]
fn font_address_is_five_times_digit() {
    let mut e = Emu::new();
    e.load(&[0x60, 0x07, 0xF0, 0x29]);
    e.tick().unwrap();
    e.tick().unwrap();
    assert_eq!(e.get_i(), 35);
    // the addressed sprite is digit 7's first row
    assert_eq!(e.get_ram(35), 0xF0);
}

#[test]
fn bcd_decomposes_234() {
    let mut e = Emu::new();
    // V0 = 234; I = 0x300; BCD V0
    e.load(&[0x60, 0xEA, 0xA3, 0x00, 0xF0, 0x33]);
    for _ in 0..3 {
        e.tick().unwrap();
    }
    assert_eq!(e.get_ram(0x300), 2);
    assert_eq!(e.get_ram(0x301), 3);
    assert_eq!(e.get_ram(0x302), 4);
}

#[test]
fn bcd_decomposes_zero() {
    let mut e = Emu::new();
    e.load(&[0x60, 0x00, 0xA3, 0x00, 0xF0, 0x33]);
    for _ in 0..3 {
        e.tick().unwrap();
    }
    assert_eq!(e.get_ram(0x300), 0);
    assert_eq!(e.get_ram(0x301), 0);
    assert_eq!(e.get_ram(0x302), 0);
}

#[test]
fn store_then_load_round_trip() {
    let mut e = Emu::new();
    // V0..V2 = 11,22,33; I = 0x300; store V0..V2; zero them; load V0..V2
    e.load(&[
        0x60, 0x11, 0x61, 0x22, 0x62, 0x33, 0xA3, 0x00, 0xF2, 0x55, 0x60, 0x00, 0x61, 0x00, 0x62,
        0x00, 0xF2, 0x65,
    ]);
    for _ in 0..9 {
        e.tick().unwrap();
    }
    assert_eq!(e.get_v(0), 0x11);
    assert_eq!(e.get_v(1), 0x22);
    assert_eq!(e.get_v(2), 0x33);
    assert_eq!(e.get_v(3), 0x00);
    // memory holds the stored bytes
    assert_eq!(e.get_ram(0x300), 0x11);
    assert_eq!(e.get_ram(0x302), 0x33);
}

#[test]
fn nested_calls_and_returns_restore_pc() {
    let mut e = Emu::new();
    // call 0x208; at 0x208 call 0x20C; at 0x20C return; at 0x20A return
    e.load(&[
        0x22, 0x08, 0x00, 0x00, 0x00, 0x00, 0x00, 0x00, 0x22, 0x0C, 0x00, 0xEE, 0x00, 0xEE,
    ]);
    e.tick().unwrap();
    assert_eq!(e.get_pc(), 0x208);
    assert_eq!(e.stack_size(), 1);
    e.tick().unwrap();
    assert_eq!(e.get_pc(), 0x20C);
    assert_eq!(e.stack_size(), 2);
    e.tick().unwrap();
    assert_eq!(e.get_pc(), 0x20A);
    assert_eq!(e.stack_size(), 1);
    e.tick().unwrap();
    // back at the address immediately after the outermost call
    assert_eq!(e.get_pc(), 0x202);
    assert_eq!(e.stack_size(), 0);
}

#[test]
fn random_masks_with_zero_give_zero() {
    let mut e = Emu::new();
    // V0 = rand & 0x00 must be 0 whatever the generator returned
    e.load(&[0x60, 0x77, 0xC0, 0x00]);
    e.tick().unwrap();
    e.tick().unwrap();
    assert_eq!(e.get_v(0), 0);
}

#[test]
fn random_respects_mask() {
    let mut e = Emu::new();
    e.load(&[0xC0, 0x0F]);
    e.tick().unwrap();
    assert!(e.get_v(0) <= 0x0F);
}

#[test]
fn tick_with_fixed_byte_is_deterministic() {
    let mut e = Emu::new();
    e.load(&[0xC0, 0xFF]);
    e.tick_with(0x5A).unwrap();
    assert_eq!(e.get_v(0), 0x5A);
}

#[test]
fn draw_wraps_and_reports_collision_on_second_pass() {
    let mut e = Emu::new();
    // I = 0x20A; V0 = 63; V1 = 0; draw 1 row twice; row byte 0xC0
    e.load(&[
        0xA2, 0x0A, 0x60, 0x3F, 0x61, 0x00, 0xD0, 0x11, 0xD0, 0x11, 0xC0,
    ]);
    for _ in 0..4 {
        e.tick().unwrap();
    }
    // first draw: no collision; the second column wrapped to x = 0
    assert_eq!(e.get_v(0xF), 0);
    assert!(pixel(&e, 63, 0));
    assert!(pixel(&e, 0, 0));
    assert!(!pixel(&e, 1, 0));
    e.tick().unwrap();
    // second draw: collision, and the same pixels toggled off
    assert_eq!(e.get_v(0xF), 1);
    assert!(!pixel(&e, 63, 0));
    assert!(!pixel(&e, 0, 0));
    assert!(e.get_display().iter().all(|p| !*p));
}

#[test]
fn draw_wraps_vertically_and_clear_screen_clears() {
    let mut e = Emu::new();
    // I = 0x20C; V0 = 0; V1 = 31; draw 2 rows: second row wraps to y = 0
    e.load(&[
        0xA2, 0x0C, 0x60, 0x00, 0x61, 0x1F, 0xD0, 0x12, 0x00, 0xE0, 0x00, 0x00, 0x80, 0x80,
    ]);
    for _ in 0..4 {
        e.tick().unwrap();
    }
    assert!(pixel(&e, 0, 31));
    assert!(pixel(&e, 0, 0));
    e.tick().unwrap();
    assert!(e.get_display().iter().all(|p| !*p));
}

#[test]
fn draw_uses_font_sprite() {
    let mut e = Emu::new();
    // V0 = 0; I = font(V0); V1 = 0; draw the 5-row "0" glyph at (0,0)
    e.load(&[0x60, 0x00, 0xF0, 0x29, 0x61, 0x00, 0xD1, 0x15]);
    for _ in 0..4 {
        e.tick().unwrap();
    }
    // top row of the "0" glyph is 0xF0: pixels 0..4 set
    assert!(pixel(&e, 0, 0));
    assert!(pixel(&e, 3, 0));
    assert!(!pixel(&e, 4, 0));
    // middle row 0x90: only the outer pixels
    assert!(pixel(&e, 0, 2));
    assert!(!pixel(&e, 1, 2));
    assert!(pixel(&e, 3, 2));
}

#[test]
fn wait_key_blocks_until_a_key_arrives() {
    let mut e = Emu::new();
    // wait for a key into V5
    e.load(&[0xF5, 0x0A]);
    for _ in 0..3 {
        e.tick().unwrap();
        assert_eq!(e.get_pc(), 0x200);
        assert_eq!(e.get_v(5), 0);
    }
    e.keypress(9, true);
    e.tick().unwrap();
    assert_eq!(e.get_pc(), 0x202);
    assert_eq!(e.get_v(5), 9);
}

#[test]
fn wait_key_takes_lowest_pressed_index() {
    let mut e = Emu::new();
    e.load(&[0xF0, 0x0A]);
    e.keypress(11, true);
    e.keypress(4, true);
    e.tick().unwrap();
    assert_eq!(e.get_v(0), 4);
}

#[test]
fn nop_only_advances() {
    let mut e = Emu::new();
    e.load(&[0x00, 0x00]);
    e.tick().unwrap();
    assert_eq!(e.get_pc(), 0x202);
    assert_eq!(e.stack_size(), 0);
    assert_eq!(e.get_i(), 0);
}

#[test]
fn decode_matches_exact_tuples() {
    assert_eq!(decode(0x0000), Some(Instr::Nop));
    assert_eq!(decode(0x00E0), Some(Instr::Cls));
    assert_eq!(decode(0x00EE), Some(Instr::Ret));
    assert_eq!(decode(0x1234), Some(Instr::Jmp(0x234)));
    assert_eq!(decode(0x2345), Some(Instr::Call(0x345)));
    assert_eq!(decode(0x3A7F), Some(Instr::SkipEqImm(0xA, 0x7F)));
    assert_eq!(decode(0x8AB4), Some(Instr::AddReg(0xA, 0xB)));
    assert_eq!(decode(0x8AB6), Some(Instr::Shr(0xA)));
    assert_eq!(decode(0xD12F), Some(Instr::Draw(1, 2, 0xF)));
    assert_eq!(decode(0xE19E), Some(Instr::SkipKey(1)));
    assert_eq!(decode(0xF365), Some(Instr::LoadRegs(3)));
    // near misses are unknown, never aliased to a neighbour
    assert_eq!(decode(0x5AB1), None);
    assert_eq!(decode(0x8AB8), None);
    assert_eq!(decode(0x9AB2), None);
    assert_eq!(decode(0xE19F), None);
    assert_eq!(decode(0xF366), None);
    assert_eq!(decode(0x00E1), None);
    assert_eq!(decode(0x0123), None);
}

#[test]
fn unknown_opcode_is_a_distinct_fault() {
    let mut e = Emu::new();
    e.load(&[0x5A, 0xB1]);
    assert_eq!(e.tick(), Err(Fault::UnknownOpcode));
}

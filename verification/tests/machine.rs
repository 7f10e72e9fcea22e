//! Machine construction, reset, program loading, timers and the key latch.

use chip8_core::Emu;
use chip8_core::SCREEN_HEIGHT;
use chip8_core::SCREEN_WIDTH;

#[test]
fn new_starts_at_program_offset() {
    let e = Emu::new();
    assert_eq!(e.get_pc(), 0x200);
    assert_eq!(e.get_i(), 0);
    assert_eq!(e.get_dt(), 0);
    assert_eq!(e.get_st(), 0);
    assert_eq!(e.stack_size(), 0);
    for x in 0..16 {
        assert_eq!(e.get_v(x), 0);
    }
}

#[test]
fn new_loads_font_table() {
    let e = Emu::new();
    // digit 0 sprite starts at address 0
    assert_eq!(e.get_ram(0), 0xF0);
    assert_eq!(e.get_ram(1), 0x90);
    assert_eq!(e.get_ram(4), 0xF0);
    // digit 1 sprite starts at address 5
    assert_eq!(e.get_ram(5), 0x20);
    // digit F sprite ends at address 79
    assert_eq!(e.get_ram(79), 0x80);
    // memory above the font table is zero
    assert_eq!(e.get_ram(80), 0);
    assert_eq!(e.get_ram(0x200), 0);
    assert_eq!(e.get_ram(4095), 0);
}

#[test]
fn display_starts_clear_and_has_fixed_size() {
    let e = Emu::new();
    let d = e.get_display();
    assert_eq!(d.len(), SCREEN_WIDTH * SCREEN_HEIGHT);
    assert_eq!(d.len(), 2048);
    assert!(d.iter().all(|p| !*p));
}

#[test]
fn load_copies_program_at_fixed_offset() {
    let mut e = Emu::new();
    e.load(&[0xAB, 0xCD, 0xEF]);
    assert_eq!(e.get_ram(0x200), 0xAB);
    assert_eq!(e.get_ram(0x201), 0xCD);
    assert_eq!(e.get_ram(0x202), 0xEF);
    assert_eq!(e.get_ram(0x203), 0x00);
    // the font table is untouched
    assert_eq!(e.get_ram(0), 0xF0);
}

#[test]
fn load_largest_program_fits() {
    let mut e = Emu::new();
    let rom = vec![0x77u8; 4096 - 0x200];
    e.load(&rom);
    assert_eq!(e.get_ram(0x200), 0x77);
    assert_eq!(e.get_ram(4095), 0x77);
}

#[test]
fn reset_restores_initial_state() {
    let mut e = Emu::new();
    e.load(&[0x60, 0x55, 0xA3, 0x00]);
    e.tick().unwrap();
    e.tick().unwrap();
    e.keypress(3, true);
    assert_ne!(e.get_pc(), 0x200);
    e.reset();
    assert_eq!(e.get_pc(), 0x200);
    assert_eq!(e.get_i(), 0);
    assert_eq!(e.get_v(0), 0);
    assert_eq!(e.get_ram(0x200), 0);
    assert_eq!(e.get_ram(0), 0xF0);
    // the cleared key latch no longer satisfies a key-wait
    e.load(&[0xF0, 0x0A]);
    e.tick().unwrap();
    assert_eq!(e.get_pc(), 0x200);
}

#[test]
fn timers_tick_down_and_stop_at_zero() {
    let mut e = Emu::new();
    // V0 = 3; DT = V0; ST = V0
    e.load(&[0x60, 0x03, 0xF0, 0x15, 0xF0, 0x18]);
    e.tick().unwrap();
    e.tick().unwrap();
    e.tick().unwrap();
    assert_eq!(e.get_dt(), 3);
    assert_eq!(e.get_st(), 3);
    e.tick_timers();
    assert_eq!(e.get_dt(), 2);
    assert_eq!(e.get_st(), 2);
    e.tick_timers();
    e.tick_timers();
    assert_eq!(e.get_dt(), 0);
    assert_eq!(e.get_st(), 0);
    // a timer at zero stays at zero, however often the cadence fires
    for _ in 0..10 {
        e.tick_timers();
        assert_eq!(e.get_dt(), 0);
        assert_eq!(e.get_st(), 0);
    }
}

#[test]
fn timers_do_not_advance_on_instruction_execution() {
    let mut e = Emu::new();
    // V0 = 9; DT = V0; V1 = DT
    e.load(&[0x60, 0x09, 0xF0, 0x15, 0xF1, 0x07]);
    e.tick().unwrap();
    e.tick().unwrap();
    e.tick().unwrap();
    // no tick_timers call happened, so the delay timer still reads 9
    assert_eq!(e.get_v(1), 9);
    assert_eq!(e.get_dt(), 9);
}

#[test]
fn keypress_drives_key_skip_instructions() {
    let mut e = Emu::new();
    // V0 = 5; skip if key V0 pressed
    e.load(&[0x60, 0x05, 0xE0, 0x9E]);
    e.keypress(5, true);
    e.tick().unwrap();
    e.tick().unwrap();
    assert_eq!(e.get_pc(), 0x206);

    let mut e2 = Emu::new();
    e2.load(&[0x60, 0x05, 0xE0, 0x9E]);
    e2.keypress(5, true);
    e2.keypress(5, false);
    e2.tick().unwrap();
    e2.tick().unwrap();
    assert_eq!(e2.get_pc(), 0x204);
}

#[test]
fn skip_if_key_not_pressed() {
    let mut e = Emu::new();
    // V0 = 2; skip if key V0 not pressed
    e.load(&[0x60, 0x02, 0xE0, 0xA1]);
    e.tick().unwrap();
    e.tick().unwrap();
    assert_eq!(e.get_pc(), 0x206);

    let mut e2 = Emu::new();
    e2.load(&[0x60, 0x02, 0xE0, 0xA1]);
    e2.keypress(2, true);
    e2.tick().unwrap();
    e2.tick().unwrap();
    assert_eq!(e2.get_pc(), 0x204);
}

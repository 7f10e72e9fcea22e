//! Faults: each fatal condition is reported as its own variant, and a
//! faulting step leaves the machine exactly as it was.

use chip8_core::Emu;
use chip8_core::instr::Fault;

#[test]
fn unknown_opcode_leaves_state_unchanged() {
    let mut e = Emu::new();
    e.load(&[0x60, 0x42, 0xFF, 0xFF]);
    e.tick().unwrap();
    assert_eq!(e.tick(), Err(Fault::UnknownOpcode));
    assert_eq!(e.get_pc(), 0x202);
    assert_eq!(e.get_v(0), 0x42);
    // the fault repeats on the next step: the machine never moves past it
    assert_eq!(e.tick(), Err(Fault::UnknownOpcode));
    assert_eq!(e.get_pc(), 0x202);
}

#[test]
fn return_on_empty_stack_underflows() {
    let mut e = Emu::new();
    e.load(&[0x00, 0xEE]);
    assert_eq!(e.tick(), Err(Fault::StackUnderflow));
    assert_eq!(e.get_pc(), 0x200);
    assert_eq!(e.stack_size(), 0);
}

#[test]
fn seventeenth_nested_call_overflows() {
    let mut e = Emu::new();
    // the instruction at 0x200 calls 0x200: each step nests one deeper
    e.load(&[0x22, 0x00]);
    for depth in 1..=16 {
        e.tick().unwrap();
        assert_eq!(e.stack_size(), depth);
        assert_eq!(e.get_pc(), 0x200);
    }
    assert_eq!(e.tick(), Err(Fault::StackOverflow));
    assert_eq!(e.stack_size(), 16);
    assert_eq!(e.get_pc(), 0x200);
}

#[test]
fn fetch_beyond_memory_faults() {
    let mut e = Emu::new();
    e.load(&[0x1F, 0xFF]);
    e.tick().unwrap();
    assert_eq!(e.get_pc(), 0xFFF);
    assert_eq!(e.tick(), Err(Fault::MemoryOutOfBounds));
    assert_eq!(e.get_pc(), 0xFFF);
}

#[test]
fn store_past_end_of_memory_faults() {
    let mut e = Emu::new();
    // I = 0xFFF; store V0..V1 would touch 0x1000
    e.load(&[0xAF, 0xFF, 0xF1, 0x55]);
    e.tick().unwrap();
    assert_eq!(e.tick(), Err(Fault::MemoryOutOfBounds));
    assert_eq!(e.get_pc(), 0x202);
    // the last byte is still writable
    let mut e2 = Emu::new();
    e2.load(&[0x60, 0x99, 0xAF, 0xFF, 0xF0, 0x55]);
    for _ in 0..3 {
        e2.tick().unwrap();
    }
    assert_eq!(e2.get_ram(0xFFF), 0x99);
}

#[test]
fn load_past_end_of_memory_faults() {
    let mut e = Emu::new();
    e.load(&[0xAF, 0xFE, 0xF2, 0x65]);
    e.tick().unwrap();
    assert_eq!(e.tick(), Err(Fault::MemoryOutOfBounds));
}

#[test]
fn bcd_near_end_of_memory_faults() {
    let mut e = Emu::new();
    // I = 0xFFE: the three digit bytes would run past the end
    e.load(&[0xAF, 0xFE, 0xF0, 0x33]);
    e.tick().unwrap();
    assert_eq!(e.tick(), Err(Fault::MemoryOutOfBounds));
    assert_eq!(e.get_ram(0xFFE), 0);
}

#[test]
fn draw_rows_past_end_of_memory_fault() {
    let mut e = Emu::new();
    // I = 0xFFF: a two-row sprite would read 0x1000
    e.load(&[0xAF, 0xFF, 0xD0, 0x02]);
    e.tick().unwrap();
    assert_eq!(e.tick(), Err(Fault::MemoryOutOfBounds));
    // a one-row sprite at the same address is fine
    let mut e2 = Emu::new();
    e2.load(&[0xAF, 0xFF, 0xD0, 0x01]);
    e2.tick().unwrap();
    e2.tick().unwrap();
}

#[test]
fn key_skip_with_register_out_of_range_faults() {
    let mut e = Emu::new();
    e.load(&[0x60, 0xFF, 0xE0, 0x9E]);
    e.tick().unwrap();
    assert_eq!(e.tick(), Err(Fault::KeyOutOfRange));
    assert_eq!(e.get_pc(), 0x202);

    let mut e2 = Emu::new();
    e2.load(&[0x60, 0x10, 0xE0, 0xA1]);
    e2.tick().unwrap();
    assert_eq!(e2.tick(), Err(Fault::KeyOutOfRange));
}

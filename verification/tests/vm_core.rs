//! Initialization, loading, fetch and control-flow behaviour of the VM core.

use chip8::chip8::{Chip8, LoadError, ProgramKind};
use chip8::isa::{Fault, StepEvent};

const FONT: [u8; 80] = [
    0xF0, 0x90, 0x90, 0x90, 0xF0, 0x20, 0x60, 0x20, 0x20, 0x70, 0xF0, 0x10, 0xF0, 0x80, 0xF0,
    0xF0, 0x10, 0xF0, 0x10, 0xF0, 0x90, 0x90, 0xF0, 0x10, 0x10, 0xF0, 0x80, 0xF0, 0x10, 0xF0,
    0xF0, 0x80, 0xF0, 0x90, 0xF0, 0xF0, 0x10, 0x20, 0x40, 0x40, 0xF0, 0x90, 0xF0, 0x90, 0xF0,
    0xF0, 0x90, 0xF0, 0x10, 0xF0, 0xF0, 0x90, 0xF0, 0x90, 0x90, 0xE0, 0x90, 0xE0, 0x90, 0xE0,
    0xF0, 0x80, 0x80, 0x80, 0xF0, 0xE0, 0x90, 0x90, 0x90, 0xE0, 0xF0, 0x80, 0xF0, 0x80, 0xF0,
    0xF0, 0x80, 0xF0, 0x80, 0x80,
];

fn fresh() -> Chip8 {
    let mut m = Chip8::new();
    m.initialize(ProgramKind::CHIP8);
    m
}

/// Plants an opcode at the program counter and executes one step.
fn run_op(m: &mut Chip8, op: u16) -> Result<StepEvent, Fault> {
    let pc = m.program_counter as usize;
    m.memory[pc] = (op >> 8) as u8;
    m.memory[pc + 1] = (op & 0xFF) as u8;
    m.step()
}

#[test]
fn initialize_zeroes_state_and_loads_font() {
    let mut m = Chip8::new();
    m.delay_timer = 7;
    m.sound_timer = 9;
    m.v[3] = 42;
    m.stack[2] = 0x123;
    m.stack_pointer = 5;
    m.index_register = 0x321;
    m.gfx[100] = 1;
    m.initialize(ProgramKind::CHIP8);
    for i in 0..16 {
        assert_eq!(m.v[i], 0);
    }
    assert_eq!(m.index_register, 0);
    assert_eq!(m.stack_pointer, 0);
    assert_eq!(m.delay_timer, 0);
    assert_eq!(m.sound_timer, 0);
    assert_eq!(m.program_counter, 0x200);
    for i in 0..16 {
        assert_eq!(m.stack[i], 0);
    }
    for i in 0..64 * 32 {
        assert_eq!(m.gfx[i], 0);
    }
    for i in 0..80 {
        assert_eq!(m.memory[i], FONT[i]);
    }
}

#[test]
fn initialize_eti660_offset() {
    let mut m = Chip8::new();
    m.initialize(ProgramKind::ETI660);
    assert_eq!(m.program_counter, 0x600);
}

#[test]
fn load_program_places_bytes_at_offset() {
    let mut m = fresh();
    let image = vec![0x12u8, 0x34, 0x56];
    assert!(m.load_program(&image, ProgramKind::CHIP8).is_ok());
    assert_eq!(m.memory[0x200], 0x12);
    assert_eq!(m.memory[0x201], 0x34);
    assert_eq!(m.memory[0x202], 0x56);
    assert_eq!(m.memory[0x203], 0);
}

#[test]
fn load_program_eti660_offset() {
    let mut m = fresh();
    let image = vec![0xABu8, 0xCD];
    assert!(m.load_program(&image, ProgramKind::ETI660).is_ok());
    assert_eq!(m.memory[0x600], 0xAB);
    assert_eq!(m.memory[0x601], 0xCD);
}

#[test]
fn load_program_largest_image_fits() {
    let mut m = fresh();
    let image = vec![0x77u8; 4096 - 0x200];
    assert!(m.load_chip8_program(&image).is_ok());
    assert_eq!(m.memory[0xFFF], 0x77);
}

#[test]
fn load_program_too_large_is_fatal_and_writes_nothing() {
    let mut m = fresh();
    let image = vec![0x77u8; 4096 - 0x200 + 1];
    assert_eq!(m.load_chip8_program(&image), Err(LoadError::ProgramTooLarge));
    assert_eq!(m.memory[0x200], 0);
    assert_eq!(m.memory[0xFFF], 0);
}

#[test]
fn fetch_combines_big_endian() {
    let mut m = fresh();
    m.memory[0x200] = 0xAB;
    m.memory[0x201] = 0xCD;
    m.fetch_opcode();
    assert_eq!(m.current_opcode, 0xABCD);
    assert_eq!(m.program_counter, 0x200);
}

#[test]
fn step_advances_pc_by_two() {
    let mut m = fresh();
    assert_eq!(run_op(&mut m, 0x6A12), Ok(StepEvent::Executed));
    assert_eq!(m.program_counter, 0x202);
}

#[test]
fn jump_sets_pc() {
    let mut m = fresh();
    assert_eq!(run_op(&mut m, 0x1234), Ok(StepEvent::Executed));
    assert_eq!(m.program_counter, 0x234);
}

#[test]
fn jump_v0_adds_offset() {
    let mut m = fresh();
    m.v[0] = 0x10;
    assert_eq!(run_op(&mut m, 0xB300), Ok(StepEvent::Executed));
    assert_eq!(m.program_counter, 0x310);
}

#[test]
fn call_then_ret_restores_pc_and_sp() {
    let mut m = fresh();
    assert_eq!(run_op(&mut m, 0x2300), Ok(StepEvent::Executed));
    assert_eq!(m.program_counter, 0x300);
    assert_eq!(m.stack_pointer, 1);
    assert_eq!(m.stack[0], 0x202);
    assert_eq!(run_op(&mut m, 0x00EE), Ok(StepEvent::Executed));
    assert_eq!(m.program_counter, 0x202);
    assert_eq!(m.stack_pointer, 0);
}

#[test]
fn call_ret_round_trip_at_full_nesting_depth() {
    let mut m = fresh();
    for depth in 0u16..16 {
        assert_eq!(run_op(&mut m, 0x2400), Ok(StepEvent::Executed));
        assert_eq!(m.stack_pointer, depth + 1);
        m.program_counter = 0x200 + 2 * (depth + 1);
    }
    for depth in (0u16..16).rev() {
        m.program_counter = 0x400;
        assert_eq!(run_op(&mut m, 0x00EE), Ok(StepEvent::Executed));
        assert_eq!(m.stack_pointer, depth);
        assert_eq!(m.program_counter, 0x200 + 2 * depth + 2);
    }
}

#[test]
fn call_overflow_is_a_fault() {
    let mut m = fresh();
    for _ in 0..16 {
        assert_eq!(run_op(&mut m, 0x2200), Ok(StepEvent::Executed));
    }
    assert_eq!(m.stack_pointer, 16);
    let pc_before = m.program_counter;
    assert_eq!(run_op(&mut m, 0x2200), Err(Fault::StackOverflow));
    assert_eq!(m.stack_pointer, 16);
    assert_eq!(m.program_counter, pc_before + 2);
}

#[test]
fn ret_underflow_is_a_fault() {
    let mut m = fresh();
    assert_eq!(run_op(&mut m, 0x00EE), Err(Fault::StackUnderflow));
    assert_eq!(m.stack_pointer, 0);
}

#[test]
fn sys_is_ignored() {
    let mut m = fresh();
    assert_eq!(run_op(&mut m, 0x0123), Ok(StepEvent::Executed));
    assert_eq!(m.program_counter, 0x202);
    assert_eq!(m.index_register, 0);
}

#[test]
fn unknown_opcodes_are_decode_faults() {
    for op in [0x5001u16, 0x8008, 0x800A, 0x9005, 0xE000, 0xE0A2, 0xF000, 0xF066] {
        let mut m = fresh();
        assert_eq!(run_op(&mut m, op), Err(Fault::UnknownOpcode(op)));
        // the fault does not advance past the offending opcode
        assert_eq!(m.program_counter, 0x200);
    }
}

#[test]
fn pc_out_of_range_is_a_fault() {
    let mut m = fresh();
    m.program_counter = 0xFFF;
    assert_eq!(m.step(), Err(Fault::ProgramCounterOutOfRange));
    assert_eq!(m.program_counter, 0xFFF);
}

#[test]
fn skip_equal_byte() {
    let mut m = fresh();
    m.v[4] = 0x2A;
    assert_eq!(run_op(&mut m, 0x342A), Ok(StepEvent::Executed));
    assert_eq!(m.program_counter, 0x204);
    let mut m2 = fresh();
    m2.v[4] = 0x2B;
    assert_eq!(run_op(&mut m2, 0x342A), Ok(StepEvent::Executed));
    assert_eq!(m2.program_counter, 0x202);
}

#[test]
fn skip_not_equal_byte() {
    let mut m = fresh();
    m.v[4] = 0x2A;
    assert_eq!(run_op(&mut m, 0x442A), Ok(StepEvent::Executed));
    assert_eq!(m.program_counter, 0x202);
    let mut m2 = fresh();
    m2.v[4] = 0x2B;
    assert_eq!(run_op(&mut m2, 0x442A), Ok(StepEvent::Executed));
    assert_eq!(m2.program_counter, 0x204);
}

#[test]
fn skip_register_compare() {
    let mut m = fresh();
    m.v[1] = 5;
    m.v[2] = 5;
    assert_eq!(run_op(&mut m, 0x5120), Ok(StepEvent::Executed));
    assert_eq!(m.program_counter, 0x204);
    assert_eq!(run_op(&mut m, 0x9120), Ok(StepEvent::Executed));
    assert_eq!(m.program_counter, 0x206);
    m.v[2] = 6;
    assert_eq!(run_op(&mut m, 0x9120), Ok(StepEvent::Executed));
    assert_eq!(m.program_counter, 0x20A);
}

#[test]
fn skip_on_key_state() {
    let mut m = fresh();
    m.v[1] = 0x7;
    m.set_key(0x7, true);
    assert_eq!(run_op(&mut m, 0xE19E), Ok(StepEvent::Executed));
    assert_eq!(m.program_counter, 0x204);
    assert_eq!(run_op(&mut m, 0xE1A1), Ok(StepEvent::Executed));
    assert_eq!(m.program_counter, 0x206);
    m.set_key(0x7, false);
    assert_eq!(run_op(&mut m, 0xE19E), Ok(StepEvent::Executed));
    assert_eq!(m.program_counter, 0x208);
    assert_eq!(run_op(&mut m, 0xE1A1), Ok(StepEvent::Executed));
    assert_eq!(m.program_counter, 0x20C);
}

#[test]
fn wait_key_blocks_until_pressed() {
    let mut m = fresh();
    assert_eq!(run_op(&mut m, 0xF30A), Ok(StepEvent::WaitingForKey));
    assert_eq!(m.program_counter, 0x200);
    assert_eq!(m.step(), Ok(StepEvent::WaitingForKey));
    assert_eq!(m.program_counter, 0x200);
    m.set_key(0xC, true);
    assert_eq!(m.step(), Ok(StepEvent::Executed));
    assert_eq!(m.v[3], 0xC);
    assert_eq!(m.program_counter, 0x202);
}

#[test]
fn wait_key_takes_lowest_pressed() {
    let mut m = fresh();
    m.set_key(0x9, true);
    m.set_key(0x4, true);
    assert_eq!(run_op(&mut m, 0xF00A), Ok(StepEvent::Executed));
    assert_eq!(m.v[0], 0x4);
}

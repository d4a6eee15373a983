//! Arithmetic, logic, draw, timer and register-transfer opcodes.

use chip8::chip8::{Chip8, ProgramKind};
use chip8::isa::{Fault, StepEvent};

fn fresh() -> Chip8 {
    let mut m = Chip8::new();
    m.initialize(ProgramKind::CHIP8);
    m
}

/// Plants an opcode at the program counter and executes one step.
fn run_op(m: &mut Chip8, op: u16) -> Result<StepEvent, Fault> {
    let pc = m.program_counter as usize;
    m.memory[pc] = (op >> 8) as u8;
    m.memory[pc + 1] = (op & 0xFF) as u8;
    m.step()
}

#[test]
fn ld_byte_and_ld_reg() {
    let mut m = fresh();
    assert_eq!(run_op(&mut m, 0x6A5C), Ok(StepEvent::Executed));
    assert_eq!(m.v[0xA], 0x5C);
    assert_eq!(run_op(&mut m, 0x81A0), Ok(StepEvent::Executed));
    assert_eq!(m.v[0x1], 0x5C);
}

#[test]
fn add_byte_wraps_without_flag() {
    let mut m = fresh();
    m.v[2] = 0xFF;
    m.v[0xF] = 0x5;
    assert_eq!(run_op(&mut m, 0x7202), Ok(StepEvent::Executed));
    assert_eq!(m.v[2], 0x01);
    assert_eq!(m.v[0xF], 0x5);
}

#[test]
fn or_and_xor() {
    let mut m = fresh();
    m.v[1] = 0b1100;
    m.v[2] = 0b1010;
    assert_eq!(run_op(&mut m, 0x8121), Ok(StepEvent::Executed));
    assert_eq!(m.v[1], 0b1110);
    m.v[1] = 0b1100;
    assert_eq!(run_op(&mut m, 0x8122), Ok(StepEvent::Executed));
    assert_eq!(m.v[1], 0b1000);
    m.v[1] = 0b1100;
    assert_eq!(run_op(&mut m, 0x8123), Ok(StepEvent::Executed));
    assert_eq!(m.v[1], 0b0110);
}

#[test]
fn add_reg_carry_set_on_overflow() {
    let mut m = fresh();
    m.v[1] = 0xFF;
    m.v[2] = 0x01;
    assert_eq!(run_op(&mut m, 0x8124), Ok(StepEvent::Executed));
    assert_eq!(m.v[1], 0x00);
    assert_eq!(m.v[0xF], 1);
}

#[test]
fn add_reg_carry_clear_without_overflow() {
    let mut m = fresh();
    m.v[1] = 0x01;
    m.v[2] = 0x01;
    m.v[0xF] = 1;
    assert_eq!(run_op(&mut m, 0x8124), Ok(StepEvent::Executed));
    assert_eq!(m.v[1], 0x02);
    assert_eq!(m.v[0xF], 0);
}

#[test]
fn sub_no_borrow() {
    let mut m = fresh();
    m.v[1] = 0x05;
    m.v[2] = 0x03;
    assert_eq!(run_op(&mut m, 0x8125), Ok(StepEvent::Executed));
    assert_eq!(m.v[1], 0x02);
    assert_eq!(m.v[0xF], 1);
}

#[test]
fn sub_with_borrow_wraps() {
    let mut m = fresh();
    m.v[1] = 0x03;
    m.v[2] = 0x05;
    assert_eq!(run_op(&mut m, 0x8125), Ok(StepEvent::Executed));
    assert_eq!(m.v[1], 0xFE);
    assert_eq!(m.v[0xF], 0);
}

#[test]
fn subn_reverses_operands() {
    let mut m = fresh();
    m.v[1] = 0x03;
    m.v[2] = 0x05;
    assert_eq!(run_op(&mut m, 0x8127), Ok(StepEvent::Executed));
    assert_eq!(m.v[1], 0x02);
    assert_eq!(m.v[0xF], 1);
    let mut m2 = fresh();
    m2.v[1] = 0x05;
    m2.v[2] = 0x03;
    assert_eq!(run_op(&mut m2, 0x8127), Ok(StepEvent::Executed));
    assert_eq!(m2.v[1], 0xFE);
    assert_eq!(m2.v[0xF], 0);
}

#[test]
fn shr_moves_low_bit_to_flag() {
    let mut m = fresh();
    m.v[1] = 0x05;
    assert_eq!(run_op(&mut m, 0x8106), Ok(StepEvent::Executed));
    assert_eq!(m.v[1], 0x02);
    assert_eq!(m.v[0xF], 1);
    assert_eq!(run_op(&mut m, 0x8106), Ok(StepEvent::Executed));
    assert_eq!(m.v[1], 0x01);
    assert_eq!(m.v[0xF], 0);
}

#[test]
fn shl_moves_high_bit_to_flag_and_wraps() {
    let mut m = fresh();
    m.v[1] = 0x81;
    assert_eq!(run_op(&mut m, 0x810E), Ok(StepEvent::Executed));
    assert_eq!(m.v[1], 0x02);
    assert_eq!(m.v[0xF], 1);
    assert_eq!(run_op(&mut m, 0x810E), Ok(StepEvent::Executed));
    assert_eq!(m.v[1], 0x04);
    assert_eq!(m.v[0xF], 0);
}

#[test]
fn ld_index() {
    let mut m = fresh();
    assert_eq!(run_op(&mut m, 0xA123), Ok(StepEvent::Executed));
    assert_eq!(m.index_register, 0x123);
}

#[test]
fn add_index_stays_in_twelve_bits() {
    let mut m = fresh();
    m.index_register = 0xFFF;
    m.v[3] = 0x02;
    assert_eq!(run_op(&mut m, 0xF31E), Ok(StepEvent::Executed));
    assert_eq!(m.index_register, 0x001);
}

#[test]
fn rnd_is_masked() {
    let mut m = fresh();
    assert_eq!(run_op(&mut m, 0xC70F), Ok(StepEvent::Executed));
    assert_eq!(m.v[7] & 0xF0, 0);
}

#[test]
fn rnd_is_deterministic_from_generator_state() {
    let mut m1 = fresh();
    let mut m2 = fresh();
    assert_eq!(run_op(&mut m1, 0xC7FF), Ok(StepEvent::Executed));
    assert_eq!(run_op(&mut m2, 0xC7FF), Ok(StepEvent::Executed));
    assert_eq!(m1.v[7], m2.v[7]);
    assert_eq!(m1.rng_state, m2.rng_state);
}

#[test]
fn timers_load_and_read() {
    let mut m = fresh();
    m.v[4] = 42;
    assert_eq!(run_op(&mut m, 0xF415), Ok(StepEvent::Executed));
    assert_eq!(m.delay_timer, 42);
    assert_eq!(run_op(&mut m, 0xF418), Ok(StepEvent::Executed));
    assert_eq!(m.sound_timer, 42);
    assert_eq!(run_op(&mut m, 0xF507), Ok(StepEvent::Executed));
    assert_eq!(m.v[5], 42);
}

#[test]
fn timers_decay_to_zero_and_floor_there() {
    let mut m = fresh();
    m.delay_timer = 5;
    for expected in (0..5).rev() {
        m.tick_timers();
        assert_eq!(m.delay_timer, expected);
    }
    m.tick_timers();
    assert_eq!(m.delay_timer, 0);
}

#[test]
fn sound_timer_beeps_on_last_tick() {
    let mut m = fresh();
    m.sound_timer = 2;
    assert!(!m.tick_timers());
    assert_eq!(m.sound_timer, 1);
    assert!(m.tick_timers());
    assert_eq!(m.sound_timer, 0);
    assert!(!m.tick_timers());
    assert_eq!(m.sound_timer, 0);
}

#[test]
fn font_address_is_five_bytes_per_glyph() {
    let mut m = fresh();
    m.v[6] = 0xB;
    assert_eq!(run_op(&mut m, 0xF629), Ok(StepEvent::Executed));
    assert_eq!(m.index_register, 55);
    // the glyph there is the font sprite for the digit B
    assert_eq!(m.memory[55], 0xE0);
}

#[test]
fn bcd_stores_three_decimal_digits() {
    let mut m = fresh();
    m.v[9] = 254;
    m.index_register = 0x300;
    assert_eq!(run_op(&mut m, 0xF933), Ok(StepEvent::Executed));
    assert_eq!(m.memory[0x300], 2);
    assert_eq!(m.memory[0x301], 5);
    assert_eq!(m.memory[0x302], 4);
}

#[test]
fn bcd_out_of_range_is_a_fault() {
    let mut m = fresh();
    m.index_register = 0xFFE;
    assert_eq!(run_op(&mut m, 0xF033), Err(Fault::MemoryOutOfRange));
    assert_eq!(m.memory[0xFFE], 0);
}

#[test]
fn store_then_load_registers_round_trip() {
    let mut m = fresh();
    for i in 0..6 {
        m.v[i] = (10 + i) as u8;
    }
    m.index_register = 0x300;
    assert_eq!(run_op(&mut m, 0xF555), Ok(StepEvent::Executed));
    for i in 0..6 {
        assert_eq!(m.memory[0x300 + i], (10 + i) as u8);
        m.v[i] = 0;
    }
    assert_eq!(m.memory[0x306], 0);
    assert_eq!(run_op(&mut m, 0xF565), Ok(StepEvent::Executed));
    for i in 0..6 {
        assert_eq!(m.v[i], (10 + i) as u8);
    }
    assert_eq!(m.v[6], 0);
    assert_eq!(m.index_register, 0x300);
}

#[test]
fn store_registers_out_of_range_is_a_fault() {
    let mut m = fresh();
    m.index_register = 0xFFD;
    assert_eq!(run_op(&mut m, 0xF355), Err(Fault::MemoryOutOfRange));
    assert_eq!(m.memory[0xFFD], 0);
}

#[test]
fn cls_clears_the_display() {
    let mut m = fresh();
    m.gfx[0] = 1;
    m.gfx[2047] = 1;
    assert_eq!(run_op(&mut m, 0x00E0), Ok(StepEvent::Executed));
    for i in 0..2048 {
        assert_eq!(m.gfx[i], 0);
    }
}

#[test]
fn draw_blits_the_font_glyph() {
    let mut m = fresh();
    // glyph 0 sits at memory 0..5; top row 0xF0: four lit pixels
    m.index_register = 0;
    m.v[0] = 0;
    m.v[1] = 0;
    assert_eq!(run_op(&mut m, 0xD015), Ok(StepEvent::Executed));
    assert_eq!(m.v[0xF], 0);
    for c in 0..4 {
        assert_eq!(m.gfx[c], 1);
    }
    for c in 4..8 {
        assert_eq!(m.gfx[c], 0);
    }
    // second row 0x90: pixels at columns 0 and 3
    assert_eq!(m.gfx[64], 1);
    assert_eq!(m.gfx[64 + 1], 0);
    assert_eq!(m.gfx[64 + 2], 0);
    assert_eq!(m.gfx[64 + 3], 1);
}

#[test]
fn draw_same_sprite_twice_xors_it_away() {
    let mut m = fresh();
    m.index_register = 0;
    m.v[2] = 10;
    m.v[3] = 5;
    assert_eq!(run_op(&mut m, 0xD235), Ok(StepEvent::Executed));
    assert_eq!(m.v[0xF], 0);
    assert_eq!(m.gfx[5 * 64 + 10], 1);
    assert_eq!(run_op(&mut m, 0xD235), Ok(StepEvent::Executed));
    assert_eq!(m.v[0xF], 1);
    for i in 0..2048 {
        assert_eq!(m.gfx[i], 0);
    }
}

#[test]
fn draw_wraps_around_the_display_edges() {
    let mut m = fresh();
    m.memory[0x300] = 0xFF;
    m.index_register = 0x300;
    m.v[0] = 62;
    m.v[1] = 31;
    assert_eq!(run_op(&mut m, 0xD011), Ok(StepEvent::Executed));
    // row 31, columns 62, 63 and wrapped 0..5
    assert_eq!(m.gfx[31 * 64 + 62], 1);
    assert_eq!(m.gfx[31 * 64 + 63], 1);
    for c in 0..6 {
        assert_eq!(m.gfx[31 * 64 + c], 1);
    }
    assert_eq!(m.gfx[31 * 64 + 6], 0);
}

#[test]
fn draw_collision_reports_any_unset_pixel() {
    let mut m = fresh();
    m.memory[0x300] = 0x80;
    m.index_register = 0x300;
    m.gfx[0] = 1;
    assert_eq!(run_op(&mut m, 0xD001), Ok(StepEvent::Executed));
    assert_eq!(m.gfx[0], 0);
    assert_eq!(m.v[0xF], 1);
}

#[test]
fn draw_rows_out_of_range_is_a_fault() {
    let mut m = fresh();
    m.index_register = 0xFFF;
    assert_eq!(run_op(&mut m, 0xD012), Err(Fault::MemoryOutOfRange));
}

use chip8::model::{DISPLAY_SIZE, DISPLAY_W, MAX_ROM_SIZE};
use chip8::{Chip, ChipError};

fn loaded(rom: &[u8]) -> Chip {
    let mut c = Chip::new_at(0);
    c.load_rom_at(rom, 0).unwrap();
    c
}

fn run(c: &mut Chip, steps: usize) {
    for _ in 0..steps {
        c.cycle_at(0, 0).unwrap();
    }
}

fn lit_cells(c: &Chip) -> usize {
    c.display().iter().filter(|&&p| p).count()
}

#[test]
fn new_machine_is_reset() {
    let c = Chip::new();
    assert!(c.is_running());
    let d = c.dump();
    assert_eq!(d.program_counter, 0x200);
    assert_eq!(d.registers, [0; 16]);
    assert_eq!(d.index, 0);
    assert_eq!(d.stack_pointer, 0);
    let glyph_zero: Vec<u8> = (0..5).map(|a| c.memory_byte(a)).collect();
    assert_eq!(glyph_zero, vec![0xF0, 0x90, 0x90, 0x90, 0xF0]);
    assert_eq!(c.memory_byte(79), 0x80);
    assert_eq!(c.memory_byte(80), 0);
    assert_eq!(lit_cells(&c), 0);
}

#[test]
fn load_copies_program_to_base() {
    let c = loaded(&[0x12, 0x34, 0x56]);
    assert_eq!(c.memory_byte(0x200), 0x12);
    assert_eq!(c.memory_byte(0x201), 0x34);
    assert_eq!(c.memory_byte(0x202), 0x56);
    assert_eq!(c.memory_byte(0x203), 0);
}

#[test]
fn load_refuses_too_large_program() {
    let mut c = loaded(&[0x60, 0x07]);
    let big = vec![0u8; MAX_ROM_SIZE + 1];
    assert_eq!(c.load_rom_at(&big, 5), Err(ChipError::RomTooLarge { len: MAX_ROM_SIZE + 1 }));
    assert_eq!(c.memory_byte(0x200), 0x60);
    let largest = vec![0xAAu8; MAX_ROM_SIZE];
    assert_eq!(c.load_rom(&largest), Ok(()));
    assert_eq!(c.memory_byte(0xFFF), 0xAA);
}

#[test]
fn clear_screen_after_draw() {
    // V0 = 0, I = glyph 0, draw it at (0, 0), then clear.
    let mut c = loaded(&[0x60, 0x00, 0xA0, 0x00, 0xD0, 0x05, 0x00, 0xE0]);
    run(&mut c, 3);
    assert!(lit_cells(&c) > 0);
    run(&mut c, 1);
    assert_eq!(c.display(), [false; DISPLAY_SIZE]);
}

#[test]
fn clear_screen_only_program() {
    let mut c = loaded(&[0x00, 0xE0]);
    run(&mut c, 1);
    assert_eq!(c.display(), [false; DISPLAY_SIZE]);
    assert_eq!(c.dump().program_counter, 0x202);
}

#[test]
fn draw_twice_restores_display_and_reports_collision() {
    // I = glyph 0; draw at (V0, V1) = (0, 0) twice.
    let mut c = loaded(&[0xA0, 0x00, 0xD0, 0x15, 0xD0, 0x15]);
    run(&mut c, 2);
    assert_eq!(c.dump().registers[0xF], 0);
    // Glyph 0 has 4 + 2 + 2 + 2 + 4 lit cells.
    assert_eq!(lit_cells(&c), 14);
    assert!(c.display()[0]);
    assert!(!c.display()[4]);
    assert!(c.display()[DISPLAY_W]);
    run(&mut c, 1);
    assert_eq!(c.display(), [false; DISPLAY_SIZE]);
    assert_eq!(c.dump().registers[0xF], 1);
}

#[test]
fn draw_clips_at_right_and_bottom_edges() {
    // memory[0x300..0x302] = 0xFF, 0xFF; then V0 = 60, V1 = 30; draw 2 rows.
    let mut c = loaded(&[
        0x60, 0xFF, 0x61, 0xFF, 0xA3, 0x00, 0xF1, 0x55, 0x60, 60, 0x61, 30, 0xD0, 0x12,
    ]);
    run(&mut c, 7);
    let d = c.display();
    // The two rows are 30 and 31; columns 60..64 only; nothing wraps.
    assert_eq!(lit_cells(&c), 8);
    for row in 30..32 {
        for col in 60..64 {
            assert!(d[row * DISPLAY_W + col]);
        }
    }
    assert!(!d[31 * DISPLAY_W + 59]);
    assert!(!d[0]);
    assert_eq!(c.dump().registers[0xF], 0);
}

#[test]
fn draw_off_screen_draws_nothing() {
    let mut c = loaded(&[0x60, 200, 0xA0, 0x00, 0xD0, 0x05]);
    run(&mut c, 3);
    assert_eq!(lit_cells(&c), 0);
}

#[test]
fn call_then_return_resumes_after_call() {
    // 0x200: call 0x204; 0x202: nop; 0x204: return.
    let mut c = loaded(&[0x22, 0x04, 0x00, 0x00, 0x00, 0xEE]);
    run(&mut c, 1);
    assert_eq!(c.dump().program_counter, 0x204);
    assert_eq!(c.dump().stack_pointer, 1);
    run(&mut c, 1);
    assert_eq!(c.dump().program_counter, 0x202);
    assert_eq!(c.dump().stack_pointer, 0);
    assert!(c.is_running());
}

#[test]
fn empty_program_stops_after_one_step() {
    let mut c = loaded(&[]);
    assert!(c.is_running());
    assert_eq!(c.cycle_at(0, 0), Ok(()));
    assert!(!c.is_running());
}

#[test]
fn stopped_machine_does_not_advance() {
    let mut c = loaded(&[]);
    run(&mut c, 1);
    let before = c.dump();
    run(&mut c, 3);
    assert_eq!(c.dump(), before);
}

#[test]
fn add_sequence_sets_v0_and_flag() {
    let mut c = loaded(&[0x60, 0x05, 0x61, 0x03, 0x80, 0x14]);
    run(&mut c, 3);
    let d = c.dump();
    assert_eq!(d.registers[0], 8);
    assert_eq!(d.registers[0xF], 0);
    assert_eq!(d.program_counter, 0x206);
}

#[test]
fn add_with_carry_opcode() {
    let mut c = loaded(&[0x60, 200, 0x61, 100, 0x80, 0x14]);
    run(&mut c, 3);
    assert_eq!(c.dump().registers[0], 44);
    assert_eq!(c.dump().registers[0xF], 1);
}

#[test]
fn subtract_opcodes_set_not_borrow() {
    // V0 = 5, V1 = 5, V0 -= V1 => 0, VF = 1; V2 = 3, V3 = 5, V2 = V3 - V2 => 2.
    let mut c = loaded(&[
        0x60, 5, 0x61, 5, 0x80, 0x15, 0x62, 3, 0x63, 5, 0x82, 0x37, 0x64, 3, 0x65, 5, 0x84, 0x55,
    ]);
    run(&mut c, 3);
    assert_eq!(c.dump().registers[0], 0);
    assert_eq!(c.dump().registers[0xF], 1);
    run(&mut c, 3);
    assert_eq!(c.dump().registers[2], 2);
    assert_eq!(c.dump().registers[0xF], 1);
    run(&mut c, 3);
    assert_eq!(c.dump().registers[4], 254);
    assert_eq!(c.dump().registers[0xF], 0);
}

#[test]
fn shifts_read_vy() {
    // V1 = 0x81; V0 = V1 >> 1; V2 = V1 << 1.
    let mut c = loaded(&[0x61, 0x81, 0x80, 0x16, 0x82, 0x1E]);
    run(&mut c, 2);
    assert_eq!(c.dump().registers[0], 0x40);
    assert_eq!(c.dump().registers[0xF], 1);
    run(&mut c, 1);
    assert_eq!(c.dump().registers[2], 0x02);
    assert_eq!(c.dump().registers[0xF], 1);
    assert_eq!(c.dump().registers[1], 0x81);
}

#[test]
fn immediate_add_wraps_without_flag() {
    let mut c = loaded(&[0x6F, 0x07, 0x60, 0xFF, 0x70, 0x02]);
    run(&mut c, 3);
    assert_eq!(c.dump().registers[0], 1);
    assert_eq!(c.dump().registers[0xF], 7);
}

#[test]
fn logic_opcodes() {
    let mut c = loaded(&[
        0x60, 0xF0, 0x61, 0x3C, 0x82, 0x00, 0x82, 0x11, 0x83, 0x00, 0x83, 0x12, 0x84, 0x00, 0x84,
        0x13,
    ]);
    run(&mut c, 8);
    let r = c.dump().registers;
    assert_eq!(r[2], 0xFC);
    assert_eq!(r[3], 0x30);
    assert_eq!(r[4], 0xCC);
}

#[test]
fn skips_advance_by_four_when_condition_holds() {
    let mut c = loaded(&[0x60, 0x05, 0x30, 0x05, 0x00, 0x00, 0x40, 0x05, 0x00, 0x00]);
    run(&mut c, 2);
    assert_eq!(c.dump().program_counter, 0x206);
    run(&mut c, 1);
    assert_eq!(c.dump().program_counter, 0x208);
}

#[test]
fn register_compare_skips() {
    let mut c = loaded(&[0x60, 1, 0x61, 1, 0x50, 0x10, 0x00, 0x00, 0x90, 0x10, 0x00, 0x00]);
    run(&mut c, 3);
    assert_eq!(c.dump().program_counter, 0x208);
    run(&mut c, 1);
    assert_eq!(c.dump().program_counter, 0x20A);
}

#[test]
fn key_skips_use_keypad() {
    let mut c = loaded(&[0x60, 0x15, 0xE0, 0x9E, 0x00, 0x00, 0xE0, 0xA1, 0x00, 0x00]);
    c.set_keypad(5, true);
    run(&mut c, 2);
    assert_eq!(c.dump().program_counter, 0x206);
    run(&mut c, 1);
    assert_eq!(c.dump().program_counter, 0x208);
}

#[test]
fn jump_and_jump_plus_v0() {
    let mut c = loaded(&[0x12, 0x04, 0x00, 0x00, 0x60, 0x02, 0xB2, 0x00, 0x00, 0x00]);
    run(&mut c, 1);
    assert_eq!(c.dump().program_counter, 0x204);
    run(&mut c, 2);
    assert_eq!(c.dump().program_counter, 0x202);
}

#[test]
fn random_byte_is_masked() {
    let mut c = loaded(&[0xC3, 0x0F]);
    c.cycle_at(0, 0xAB).unwrap();
    assert_eq!(c.dump().registers[3], 0x0B);
}

#[test]
fn index_opcodes() {
    // I = 0x123; V0 = 0x1A; I += V0; I = font of low nibble of V0.
    let mut c = loaded(&[0xA1, 0x23, 0x60, 0x1A, 0xF0, 0x1E, 0xF0, 0x29]);
    run(&mut c, 3);
    assert_eq!(c.dump().index, 0x13D);
    run(&mut c, 1);
    assert_eq!(c.dump().index, 50);
}

#[test]
fn add_to_index_wraps() {
    let mut c = loaded(&[0xAF, 0xFF, 0x60, 0xFF, 0xF0, 0x1E, 0xF0, 0x1E]);
    run(&mut c, 3);
    assert_eq!(c.dump().index, 0x10FE);
}

#[test]
fn bcd_writes_three_digits() {
    let mut c = loaded(&[0x60, 254, 0xA3, 0x00, 0xF0, 0x33]);
    run(&mut c, 3);
    assert_eq!(c.memory_byte(0x300), 2);
    assert_eq!(c.memory_byte(0x301), 5);
    assert_eq!(c.memory_byte(0x302), 4);
    assert_eq!(c.dump().index, 0x300);
}

#[test]
fn store_and_load_registers() {
    let mut c = loaded(&[
        0x60, 1, 0x61, 2, 0x62, 3, 0xA3, 0x00, 0xF1, 0x55, 0x60, 0, 0x61, 0, 0x62, 0, 0xF2,
        0x65,
    ]);
    run(&mut c, 5);
    assert_eq!(c.memory_byte(0x300), 1);
    assert_eq!(c.memory_byte(0x301), 2);
    assert_eq!(c.memory_byte(0x302), 0);
    assert_eq!(c.dump().index, 0x300);
    run(&mut c, 4);
    let r = c.dump().registers;
    assert_eq!((r[0], r[1], r[2]), (1, 2, 0));
}

#[test]
fn timer_opcodes() {
    let mut c = loaded(&[0x60, 9, 0xF0, 0x15, 0xF0, 0x18, 0xF1, 0x07]);
    run(&mut c, 4);
    let d = c.dump();
    assert_eq!(d.delay_timer, 9);
    assert_eq!(d.sound_timer, 9);
    assert_eq!(d.registers[1], 9);
}

#[test]
fn delay_timer_counts_down_once_per_period() {
    // V0 = 5; DT = V0; wait for a key in V1.
    let mut c = Chip::new_at(0);
    c.load_rom_at(&[0x60, 0x05, 0xF0, 0x15, 0xF1, 0x0A], 0).unwrap();
    let period = 17_000_000u64;
    let mut now = 0u64;
    for _ in 0..2 {
        now += period;
        c.cycle_at(now, 0).unwrap();
    }
    assert_eq!(c.dump().delay_timer, 5);
    let mut seen = Vec::new();
    for _ in 0..8 {
        now += period;
        c.cycle_at(now, 0).unwrap();
        seen.push(c.dump().delay_timer);
    }
    assert_eq!(seen, vec![4, 3, 2, 1, 0, 0, 0, 0]);
    assert!(c.is_waiting_for_key());
}

#[test]
fn timers_wait_for_a_full_period() {
    let mut c = Chip::new_at(0);
    c.load_rom_at(&[0x60, 0x05, 0xF0, 0x15, 0xF1, 0x0A], 0).unwrap();
    c.cycle_at(0, 0).unwrap();
    c.cycle_at(0, 0).unwrap();
    c.cycle_at(16_666_000, 0).unwrap();
    assert_eq!(c.dump().delay_timer, 5);
    c.cycle_at(16_666_001, 0).unwrap();
    assert_eq!(c.dump().delay_timer, 4);
    c.cycle_at(20_000_000, 0).unwrap();
    assert_eq!(c.dump().delay_timer, 4);
}

#[test]
fn key_wait_suspends_until_key_reported() {
    let mut c = loaded(&[0xF1, 0x0A, 0x60, 0x09]);
    run(&mut c, 3);
    assert!(c.is_waiting_for_key());
    assert_eq!(c.dump().program_counter, 0x200);
    assert_eq!(c.dump().registers[0], 0);
    c.report_key_pressed(Some(7));
    run(&mut c, 1);
    assert!(!c.is_waiting_for_key());
    assert_eq!(c.dump().registers[1], 7);
    assert_eq!(c.dump().program_counter, 0x202);
    run(&mut c, 1);
    assert_eq!(c.dump().registers[0], 9);
}

#[test]
fn key_reported_before_wait_resolves_at_once() {
    let mut c = loaded(&[0xF4, 0x0A, 0x00, 0x00]);
    c.report_key_pressed(Some(0xC));
    run(&mut c, 1);
    assert!(!c.is_waiting_for_key());
    assert_eq!(c.dump().registers[4], 0xC);
    assert_eq!(c.dump().program_counter, 0x202);
}

#[test]
fn invalid_opcode_is_an_error_and_changes_nothing() {
    let mut c = loaded(&[0x60, 0x01, 0x01, 0x23]);
    run(&mut c, 1);
    let before = c.dump();
    assert_eq!(c.cycle_at(0, 0), Err(ChipError::InvalidOpcode { word: 0x0123, pc: 0x202 }));
    assert_eq!(c.dump(), before);
    assert!(c.is_running());
    let mut d = loaded(&[0x80, 0x1F]);
    assert_eq!(d.cycle_at(0, 0), Err(ChipError::InvalidOpcode { word: 0x801F, pc: 0x200 }));
}

#[test]
fn seventeenth_nested_call_overflows() {
    let mut c = loaded(&[0x22, 0x00]);
    run(&mut c, 16);
    assert_eq!(c.dump().stack_pointer, 16);
    assert_eq!(c.cycle_at(0, 0), Err(ChipError::StackOverflow { pc: 0x200 }));
    assert_eq!(c.dump().stack_pointer, 16);
}

#[test]
fn return_on_empty_stack_underflows() {
    let mut c = loaded(&[0x00, 0xEE]);
    assert_eq!(c.cycle_at(0, 0), Err(ChipError::StackUnderflow { pc: 0x200 }));
}

#[test]
fn memory_past_end_is_an_error() {
    let mut c = loaded(&[0xAF, 0xFE, 0xD0, 0x03]);
    run(&mut c, 1);
    assert_eq!(c.cycle_at(0, 0), Err(ChipError::MemoryOutOfRange { pc: 0x202, index: 0xFFE }));
    let mut b = loaded(&[0xAF, 0xFE, 0xF0, 0x33]);
    run(&mut b, 1);
    assert_eq!(b.cycle_at(0, 0), Err(ChipError::MemoryOutOfRange { pc: 0x202, index: 0xFFE }));
    let mut s = loaded(&[0xAF, 0xFE, 0xF1, 0x55, 0xF1, 0x65]);
    run(&mut s, 2);
    assert_eq!(s.dump().program_counter, 0x204);
    assert_eq!(s.cycle_at(0, 0), Ok(()));
    let mut t = loaded(&[0xAF, 0xFE, 0xF2, 0x55]);
    run(&mut t, 1);
    assert_eq!(t.cycle_at(0, 0), Err(ChipError::MemoryOutOfRange { pc: 0x202, index: 0xFFE }));
}

#[test]
fn leaving_the_program_stops_the_machine() {
    let mut c = loaded(&[0x60, 0x01, 0x61, 0x02]);
    run(&mut c, 1);
    assert!(c.is_running());
    run(&mut c, 1);
    assert!(!c.is_running());
    let mut j = loaded(&[0x1F, 0xFE]);
    run(&mut j, 1);
    assert!(!j.is_running());
    assert_eq!(j.dump().program_counter, 0xFFE);
}

#[test]
fn reset_clears_state() {
    let mut c = loaded(&[0x60, 0x05, 0xA3, 0x00, 0xD0, 0x05]);
    run(&mut c, 3);
    c.reset();
    let d = c.dump();
    assert_eq!(d.registers, [0; 16]);
    assert_eq!(d.program_counter, 0x200);
    assert_eq!(d.index, 0);
    assert_eq!(c.memory_byte(0x200), 0);
    assert_eq!(lit_cells(&c), 0);
    assert!(c.is_running());
}

#[test]
fn cycle_reads_clock_and_runs() {
    let mut c = Chip::new();
    c.load_rom(&[0x60, 0x05, 0xC1, 0x00]).unwrap();
    c.cycle().unwrap();
    assert_eq!(c.dump().registers[0], 5);
    c.cycle().unwrap();
    assert_eq!(c.dump().registers[1], 0);
    assert!(!c.is_running());
}

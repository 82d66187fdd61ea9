use chip8_core::emu::Emu;
use chip8_core::machine::{EmuError, MAX_PROGRAM_LEN, SCREEN_HEIGHT, SCREEN_WIDTH};

fn boot(program: &[u8]) -> Emu {
    let mut emu = Emu::new();
    assert_eq!(emu.load(program), Ok(()));
    emu
}

fn run(emu: &mut Emu, ticks: usize) {
    for _ in 0..ticks {
        assert_eq!(emu.tick(), Ok(()));
    }
}

fn pixel(emu: &Emu, x: usize, y: usize) -> bool {
    emu.get_display()[y * SCREEN_WIDTH + x]
}

#[test]
fn new_machine_has_defaults() {
    let emu = Emu::new();
    assert_eq!(emu.get_pc(), 0x200);
    assert_eq!(emu.get_sp(), 0);
    assert_eq!(emu.get_index(), 0);
    assert_eq!(emu.get_delay_timer(), 0);
    assert_eq!(emu.get_sound_timer(), 0);
    for k in 0..16 {
        assert_eq!(emu.get_register(k), 0);
    }
    for a in 0..4096 {
        assert_eq!(emu.read_memory(a), 0);
    }
    assert!(emu.get_display().iter().all(|p| !*p));
}

#[test]
fn load_places_program_at_start_address() {
    let program: Vec<u8> = (0..300u32).map(|i| (i * 7 % 256) as u8).collect();
    let emu = boot(&program);
    for (i, b) in program.iter().enumerate() {
        assert_eq!(emu.read_memory(512 + i), *b);
    }
    assert_eq!(emu.read_memory(511), 0);
    assert_eq!(emu.read_memory(512 + program.len()), 0);
}

#[test]
fn load_largest_program_fills_memory() {
    let program = vec![0xAB; MAX_PROGRAM_LEN];
    let emu = boot(&program);
    assert_eq!(emu.read_memory(512), 0xAB);
    assert_eq!(emu.read_memory(4095), 0xAB);
    assert_eq!(emu.read_memory(511), 0);
}

#[test]
fn load_too_long_is_refused_and_writes_nothing() {
    let mut emu = Emu::new();
    let program = vec![0x11; MAX_PROGRAM_LEN + 1];
    assert_eq!(emu.load(&program), Err(EmuError::CapacityExceeded));
    assert_eq!(emu.read_memory(512), 0);
    assert_eq!(emu.read_memory(4095), 0);
}

#[test]
fn load_empty_program_changes_nothing() {
    let emu = boot(&[]);
    assert_eq!(emu.read_memory(512), 0);
    assert_eq!(emu.get_pc(), 0x200);
}

#[test]
fn reset_after_load_zeroes_memory_and_registers() {
    // V3 = 0x42, I = 0x321, delay = V3
    let mut emu = boot(&[0x63, 0x42, 0xA3, 0x21, 0xF3, 0x15]);
    run(&mut emu, 3);
    assert_eq!(emu.get_register(3), 0x42);
    emu.reset();
    for k in 0..16 {
        assert_eq!(emu.get_register(k), 0);
    }
    for a in 512..518 {
        assert_eq!(emu.read_memory(a), 0);
    }
    assert_eq!(emu.get_index(), 0);
    assert_eq!(emu.get_delay_timer(), 0);
    assert_eq!(emu.get_pc(), 0x200);
}

#[test]
fn add_sets_carry() {
    // VA = 0xFF, VB = 0x01, VA += VB
    let mut emu = boot(&[0x6A, 0xFF, 0x6B, 0x01, 0x8A, 0xB4]);
    run(&mut emu, 3);
    assert_eq!(emu.get_register(0xA), 0x00);
    assert_eq!(emu.get_register(0xF), 1);
}

#[test]
fn add_without_carry_clears_flag() {
    let mut emu = boot(&[0x6F, 0x01, 0x6A, 0x10, 0x6B, 0x20, 0x8A, 0xB4]);
    run(&mut emu, 4);
    assert_eq!(emu.get_register(0xA), 0x30);
    assert_eq!(emu.get_register(0xF), 0);
}

#[test]
fn subtract_with_borrow_clears_flag() {
    // VA = 0x01, VB = 0x02, VA -= VB
    let mut emu = boot(&[0x6A, 0x01, 0x6B, 0x02, 0x8A, 0xB5]);
    run(&mut emu, 3);
    assert_eq!(emu.get_register(0xA), 0xFF);
    assert_eq!(emu.get_register(0xF), 0);
}

#[test]
fn subtract_without_borrow_sets_flag() {
    let mut emu = boot(&[0x6A, 0x05, 0x6B, 0x02, 0x8A, 0xB5]);
    run(&mut emu, 3);
    assert_eq!(emu.get_register(0xA), 0x03);
    assert_eq!(emu.get_register(0xF), 1);
}

#[test]
fn reverse_subtract() {
    // VA = 0x05, VB = 0x02, VA = VB - VA
    let mut emu = boot(&[0x6A, 0x05, 0x6B, 0x02, 0x8A, 0xB7]);
    run(&mut emu, 3);
    assert_eq!(emu.get_register(0xA), 0xFD);
    assert_eq!(emu.get_register(0xF), 0);
}

#[test]
fn shift_right_captures_low_bit() {
    let mut emu = boot(&[0x61, 0b0000_0011, 0x81, 0x06]);
    run(&mut emu, 2);
    assert_eq!(emu.get_register(1), 0b0000_0001);
    assert_eq!(emu.get_register(0xF), 1);
}

#[test]
fn shift_left_captures_high_bit() {
    let mut emu = boot(&[0x61, 0b1000_0001, 0x81, 0x0E]);
    run(&mut emu, 2);
    assert_eq!(emu.get_register(1), 0b0000_0010);
    assert_eq!(emu.get_register(0xF), 1);
}

#[test]
fn logic_and_copy() {
    // V1 = 0x0C, V2 = 0x0A; V3 = V1; V3 |= V2; V4 = V1; V4 &= V2; V5 = V1; V5 ^= V2
    let mut emu = boot(&[
        0x61, 0x0C, 0x62, 0x0A, 0x83, 0x10, 0x83, 0x21, 0x84, 0x10, 0x84, 0x22, 0x85, 0x10, 0x85,
        0x23,
    ]);
    run(&mut emu, 8);
    assert_eq!(emu.get_register(3), 0x0E);
    assert_eq!(emu.get_register(4), 0x08);
    assert_eq!(emu.get_register(5), 0x06);
}

#[test]
fn add_immediate_wraps_without_flag() {
    let mut emu = boot(&[0x61, 0xF0, 0x71, 0x20]);
    run(&mut emu, 2);
    assert_eq!(emu.get_register(1), 0x10);
    assert_eq!(emu.get_register(0xF), 0);
}

#[test]
fn draw_clips_at_right_edge() {
    // V0 = 60, V1 = 0, I = 0x300 (holds 0xFF), draw 1 row
    let mut program = vec![0x60, 60, 0x61, 0, 0xA3, 0x00, 0xD0, 0x11];
    program.resize(0x100, 0);
    program.push(0xFF);
    let mut emu = boot(&program);
    run(&mut emu, 4);
    for x in 60..64 {
        assert!(pixel(&emu, x, 0));
    }
    for x in 0..60 {
        assert!(!pixel(&emu, x, 0));
    }
    for x in 0..SCREEN_WIDTH {
        assert!(!pixel(&emu, x, 1));
    }
    assert_eq!(emu.get_display().iter().filter(|p| **p).count(), 4);
    assert_eq!(emu.get_register(0xF), 0);
}

#[test]
fn draw_clips_at_bottom_edge() {
    // V0 = 0, V1 = 30, I = 0x300 (four rows of 0x80), draw 4 rows
    let mut program = vec![0x60, 0, 0x61, 30, 0xA3, 0x00, 0xD0, 0x14];
    program.resize(0x100, 0);
    program.extend_from_slice(&[0x80, 0x80, 0x80, 0x80]);
    let mut emu = boot(&program);
    run(&mut emu, 4);
    assert!(pixel(&emu, 0, 30));
    assert!(pixel(&emu, 0, SCREEN_HEIGHT - 1));
    assert!(!pixel(&emu, 0, 0));
    assert!(!pixel(&emu, 0, 1));
    assert_eq!(emu.get_display().iter().filter(|p| **p).count(), 2);
}

#[test]
fn draw_twice_erases_and_reports_collision() {
    // draw the same sprite twice, then clear the screen
    let mut program = vec![0x60, 3, 0x61, 4, 0xA3, 0x00, 0xD0, 0x12, 0xD0, 0x12, 0x00, 0xE0];
    program.resize(0x100, 0);
    program.extend_from_slice(&[0b1010_0000, 0b0100_0000]);
    let mut emu = boot(&program);
    run(&mut emu, 4);
    assert!(pixel(&emu, 3, 4));
    assert!(!pixel(&emu, 4, 4));
    assert!(pixel(&emu, 5, 4));
    assert!(pixel(&emu, 4, 5));
    assert_eq!(emu.get_register(0xF), 0);
    run(&mut emu, 1);
    assert!(emu.get_display().iter().all(|p| !*p));
    assert_eq!(emu.get_register(0xF), 1);
    run(&mut emu, 1);
    assert!(emu.get_display().iter().all(|p| !*p));
}

#[test]
fn clear_screen_turns_every_pixel_off() {
    let mut program = vec![0xA3, 0x00, 0xD0, 0x01, 0x00, 0xE0];
    program.resize(0x100, 0);
    program.push(0xFF);
    let mut emu = boot(&program);
    run(&mut emu, 2);
    assert!(pixel(&emu, 0, 0));
    run(&mut emu, 1);
    assert!(emu.get_display().iter().all(|p| !*p));
}

#[test]
fn call_then_return() {
    // 0x200: jump 0x300; 0x300: call 0x400; 0x400: return
    let mut program = vec![0x13, 0x00];
    program.resize(0x100, 0);
    program.extend_from_slice(&[0x24, 0x00]);
    program.resize(0x200, 0);
    program.extend_from_slice(&[0x00, 0xEE]);
    let mut emu = boot(&program);
    run(&mut emu, 1);
    assert_eq!(emu.get_pc(), 0x300);
    run(&mut emu, 1);
    assert_eq!(emu.get_pc(), 0x400);
    assert_eq!(emu.get_sp(), 1);
    assert_eq!(emu.get_stack_entry(0), 0x302);
    run(&mut emu, 1);
    assert_eq!(emu.get_pc(), 0x302);
    assert_eq!(emu.get_sp(), 0);
}

#[test]
fn seventeenth_call_overflows() {
    // 0x200: call 0x200, over and over
    let mut emu = boot(&[0x22, 0x00]);
    run(&mut emu, 16);
    assert_eq!(emu.get_sp(), 16);
    for k in 0..16 {
        assert_eq!(emu.get_stack_entry(k), 0x202);
    }
    assert_eq!(emu.tick(), Err(EmuError::StackOverflow));
    assert_eq!(emu.get_pc(), 0x200);
    assert_eq!(emu.get_sp(), 16);
    for k in 0..16 {
        assert_eq!(emu.get_stack_entry(k), 0x202);
    }
}

#[test]
fn return_with_empty_stack_underflows() {
    let mut emu = boot(&[0x00, 0xEE]);
    assert_eq!(emu.tick(), Err(EmuError::StackUnderflow));
    assert_eq!(emu.get_pc(), 0x200);
    assert_eq!(emu.get_sp(), 0);
}

#[test]
fn timers_stop_at_zero() {
    let mut emu = Emu::new();
    emu.advance_timers();
    assert_eq!(emu.get_delay_timer(), 0);
    assert_eq!(emu.get_sound_timer(), 0);
}

#[test]
fn timers_count_down_by_one() {
    // V0 = 5; delay = V0; V1 = 1; sound = V1; V2 = delay
    let mut emu = boot(&[0x60, 5, 0xF0, 0x15, 0x61, 1, 0xF1, 0x18]);
    run(&mut emu, 4);
    assert_eq!(emu.get_delay_timer(), 5);
    assert_eq!(emu.get_sound_timer(), 1);
    emu.advance_timers();
    assert_eq!(emu.get_delay_timer(), 4);
    assert_eq!(emu.get_sound_timer(), 0);
    emu.advance_timers();
    assert_eq!(emu.get_delay_timer(), 3);
    assert_eq!(emu.get_sound_timer(), 0);
}

#[test]
fn read_delay_timer_into_register() {
    let mut emu = boot(&[0x60, 9, 0xF0, 0x15, 0xF3, 0x07]);
    run(&mut emu, 3);
    assert_eq!(emu.get_register(3), 9);
}

#[test]
fn unknown_opcodes_only_advance() {
    // 5121, 8128, E1FF, F1FF, 0123 name no instruction
    let mut emu = boot(&[0x51, 0x21, 0x81, 0x28, 0xE1, 0xFF, 0xF1, 0xFF, 0x01, 0x23]);
    run(&mut emu, 5);
    assert_eq!(emu.get_pc(), 0x20A);
    for k in 0..16 {
        assert_eq!(emu.get_register(k), 0);
    }
    assert_eq!(emu.get_index(), 0);
    assert_eq!(emu.get_sp(), 0);
}

#[test]
fn skips_on_register_comparisons() {
    // V1 = 7; skip if V1 == 7 -> skips; skip if V1 != 7 -> no skip
    let mut emu = boot(&[0x61, 0x07, 0x31, 0x07, 0x00, 0x00, 0x41, 0x07]);
    run(&mut emu, 2);
    assert_eq!(emu.get_pc(), 0x206);
    run(&mut emu, 1);
    assert_eq!(emu.get_pc(), 0x208);
    // V2 = 7: 5120 skips, 9120 does not
    let mut emu = boot(&[0x61, 0x07, 0x62, 0x07, 0x51, 0x20, 0x00, 0x00, 0x91, 0x20]);
    run(&mut emu, 3);
    assert_eq!(emu.get_pc(), 0x208);
    run(&mut emu, 1);
    assert_eq!(emu.get_pc(), 0x20A);
}

#[test]
fn jumps() {
    // V0 = 4; jump to 0x300 + V0
    let mut emu = boot(&[0x60, 0x04, 0xB3, 0x00]);
    run(&mut emu, 2);
    assert_eq!(emu.get_pc(), 0x304);
    let mut emu = boot(&[0x1A, 0xBC]);
    run(&mut emu, 1);
    assert_eq!(emu.get_pc(), 0xABC);
}

#[test]
fn index_register_operations() {
    // I = 0x123; V0 = 0x10; I += V0; V1 = 3; I = font address of V1
    let mut emu = boot(&[0xA1, 0x23, 0x60, 0x10, 0xF0, 0x1E, 0x61, 0x03, 0xF1, 0x29]);
    run(&mut emu, 3);
    assert_eq!(emu.get_index(), 0x133);
    run(&mut emu, 2);
    assert_eq!(emu.get_index(), 15);
}

#[test]
fn bcd_stores_three_digits() {
    let mut emu = boot(&[0x60, 234, 0xA3, 0x00, 0xF0, 0x33]);
    run(&mut emu, 3);
    assert_eq!(emu.read_memory(0x300), 2);
    assert_eq!(emu.read_memory(0x301), 3);
    assert_eq!(emu.read_memory(0x302), 4);
}

#[test]
fn store_and_load_registers() {
    // V0 = 1, V1 = 2, V2 = 3; I = 0x300; store V0..=V1; I = 0x400; load V0..=V2 from zeroes
    let mut emu = boot(&[
        0x60, 1, 0x61, 2, 0x62, 3, 0xA3, 0x00, 0xF1, 0x55, 0xA3, 0x00, 0x62, 9, 0xF2, 0x65,
    ]);
    run(&mut emu, 5);
    assert_eq!(emu.read_memory(0x300), 1);
    assert_eq!(emu.read_memory(0x301), 2);
    assert_eq!(emu.read_memory(0x302), 0);
    run(&mut emu, 3);
    assert_eq!(emu.get_register(0), 1);
    assert_eq!(emu.get_register(1), 2);
    assert_eq!(emu.get_register(2), 0);
}

#[test]
fn wait_for_key_repeats_until_pressed() {
    let mut emu = boot(&[0xF5, 0x0A]);
    run(&mut emu, 3);
    assert_eq!(emu.get_pc(), 0x200);
    emu.keypress(0xC, true);
    emu.keypress(0x7, true);
    run(&mut emu, 1);
    assert_eq!(emu.get_pc(), 0x202);
    assert_eq!(emu.get_register(5), 0x7);
}

#[test]
fn skip_on_key_state() {
    // V0 = 4; skip if key V0 down; skip if key V0 up
    let mut emu = boot(&[0x60, 4, 0xE0, 0x9E, 0xE0, 0xA1]);
    run(&mut emu, 3);
    assert_eq!(emu.get_pc(), 0x208);
    let mut emu = boot(&[0x60, 4, 0xE0, 0x9E]);
    emu.keypress(4, true);
    run(&mut emu, 2);
    assert_eq!(emu.get_pc(), 0x206);
    emu.keypress(4, false);
    let mut emu2 = boot(&[0x60, 4, 0xE0, 0x9E]);
    run(&mut emu2, 2);
    assert_eq!(emu2.get_pc(), 0x204);
}

#[test]
fn random_byte_is_masked() {
    // V0 = random & 0xFF, then V1 = random & 0x00
    let mut emu = boot(&[0xC0, 0xFF, 0xC1, 0x00]);
    run(&mut emu, 2);
    assert_eq!(emu.get_register(0), 0x0F);
    assert_eq!(emu.get_register(1), 0);
}

#[test]
fn execute_runs_one_instruction_without_fetching() {
    let mut emu = Emu::new();
    assert_eq!(emu.execute(0x6A2B), Ok(()));
    assert_eq!(emu.get_register(0xA), 0x2B);
    assert_eq!(emu.get_pc(), 0x200);
}

use chip8::cpu::{Cpu, Fault};

fn boot(program: &[u8]) -> Cpu {
    let mut cpu = Cpu::new();
    cpu.load(program).unwrap();
    cpu
}

#[test]
fn new_machine_is_reset() {
    let cpu = Cpu::new();
    assert_eq!(cpu.pc, 0x200);
    assert_eq!(cpu.i_reg, 0);
    assert_eq!(cpu.sp, 0);
    assert_eq!(cpu.dt, 0);
    assert_eq!(cpu.st, 0);
    assert!(cpu.v_reg.iter().all(|&v| v == 0));
    assert!(cpu.keys.iter().all(|&k| !k));
    assert!(cpu.screen.iter().all(|&p| !p));
    // The glyph table sits at 0..80; the rest of memory is zero.
    assert_eq!(cpu.ram[0], 0xF0);
    assert_eq!(cpu.ram[5], 0x20);
    assert_eq!(cpu.ram[79], 0x80);
    assert!(cpu.ram[80..].iter().all(|&b| b == 0));
}

#[test]
fn load_copies_at_program_start() {
    let cpu = boot(&[0xAB, 0xCD, 0xEF]);
    assert_eq!(cpu.ram[0x200], 0xAB);
    assert_eq!(cpu.ram[0x201], 0xCD);
    assert_eq!(cpu.ram[0x202], 0xEF);
    assert_eq!(cpu.ram[0x203], 0x00);
}

#[test]
fn load_rejects_oversized_image() {
    let mut cpu = Cpu::new();
    let image = vec![0x55u8; 3585];
    assert_eq!(cpu.load(&image), Err(Fault::ProgramTooLarge));
    assert!(cpu.ram[0x200..].iter().all(|&b| b == 0));
    let exact = vec![0x55u8; 3584];
    assert_eq!(cpu.load(&exact), Ok(()));
    assert_eq!(cpu.ram[4095], 0x55);
}

#[test]
fn noop_advances_pc_only() {
    let mut cpu = boot(&[0x00, 0x00]);
    assert_eq!(cpu.tick(0), Ok(()));
    assert_eq!(cpu.pc, 0x202);
    assert!(cpu.screen.iter().all(|&p| !p));
}

#[test]
fn add_sets_flag_iff_overflow() {
    // 200 + 100 overflows: flag 1, result wraps.
    let mut cpu = boot(&[0x80, 0x14]);
    cpu.v_reg[0] = 200;
    cpu.v_reg[1] = 100;
    assert_eq!(cpu.tick(0), Ok(()));
    assert_eq!(cpu.v_reg[0], 44);
    assert_eq!(cpu.v_reg[0xF], 1);
    // 10 + 20 does not: flag 0.
    let mut cpu = boot(&[0x80, 0x14]);
    cpu.v_reg[0] = 10;
    cpu.v_reg[1] = 20;
    assert_eq!(cpu.tick(0), Ok(()));
    assert_eq!(cpu.v_reg[0], 30);
    assert_eq!(cpu.v_reg[0xF], 0);
}

#[test]
fn sub_clears_flag_iff_borrow() {
    // 5 - 10 borrows: flag 0.
    let mut cpu = boot(&[0x80, 0x15]);
    cpu.v_reg[0] = 5;
    cpu.v_reg[1] = 10;
    assert_eq!(cpu.tick(0), Ok(()));
    assert_eq!(cpu.v_reg[0], 251);
    assert_eq!(cpu.v_reg[0xF], 0);
    // 10 - 5 does not borrow: flag 1.
    let mut cpu = boot(&[0x80, 0x15]);
    cpu.v_reg[0] = 10;
    cpu.v_reg[1] = 5;
    assert_eq!(cpu.tick(0), Ok(()));
    assert_eq!(cpu.v_reg[0], 5);
    assert_eq!(cpu.v_reg[0xF], 1);
}

#[test]
fn sub_reversed_operands() {
    // 8XY7 computes VY - VX into VX.
    let mut cpu = boot(&[0x80, 0x17]);
    cpu.v_reg[0] = 3;
    cpu.v_reg[1] = 10;
    assert_eq!(cpu.tick(0), Ok(()));
    assert_eq!(cpu.v_reg[0], 7);
    assert_eq!(cpu.v_reg[0xF], 1);
    let mut cpu = boot(&[0x80, 0x17]);
    cpu.v_reg[0] = 10;
    cpu.v_reg[1] = 3;
    assert_eq!(cpu.tick(0), Ok(()));
    assert_eq!(cpu.v_reg[0], 249);
    assert_eq!(cpu.v_reg[0xF], 0);
}

#[test]
fn register_moves_and_bit_ops() {
    let mut cpu = boot(&[0x81, 0x20, 0x80, 0x11, 0x80, 0x22, 0x80, 0x23]);
    cpu.v_reg[0] = 0b1100;
    cpu.v_reg[1] = 0b0110;
    cpu.v_reg[2] = 0b0101;
    assert_eq!(cpu.tick(0), Ok(())); // V1 = V2
    assert_eq!(cpu.v_reg[1], 0b0101);
    assert_eq!(cpu.tick(0), Ok(())); // V0 |= V1
    assert_eq!(cpu.v_reg[0], 0b1101);
    assert_eq!(cpu.tick(0), Ok(())); // V0 &= V2
    assert_eq!(cpu.v_reg[0], 0b0101);
    assert_eq!(cpu.tick(0), Ok(())); // V0 ^= V2
    assert_eq!(cpu.v_reg[0], 0);
}

#[test]
fn shifts_report_shifted_out_bit() {
    let mut cpu = boot(&[0x80, 0x06]);
    cpu.v_reg[0] = 5;
    assert_eq!(cpu.tick(0), Ok(()));
    assert_eq!(cpu.v_reg[0], 2);
    assert_eq!(cpu.v_reg[0xF], 1);
    let mut cpu = boot(&[0x80, 0x0E]);
    cpu.v_reg[0] = 0x81;
    assert_eq!(cpu.tick(0), Ok(()));
    assert_eq!(cpu.v_reg[0], 0x02);
    assert_eq!(cpu.v_reg[0xF], 1);
}

#[test]
fn immediate_set_and_wrapping_add() {
    let mut cpu = boot(&[0x60, 0xFA, 0x70, 0x0A]);
    assert_eq!(cpu.tick(0), Ok(()));
    assert_eq!(cpu.v_reg[0], 0xFA);
    assert_eq!(cpu.tick(0), Ok(()));
    assert_eq!(cpu.v_reg[0], 4); // 250 + 10 wraps to 4, no flag write
    assert_eq!(cpu.v_reg[0xF], 0);
}

#[test]
fn skip_family() {
    // 3XNN skips when equal.
    let mut cpu = boot(&[0x30, 0x07]);
    cpu.v_reg[0] = 7;
    assert_eq!(cpu.tick(0), Ok(()));
    assert_eq!(cpu.pc, 0x204);
    let mut cpu = boot(&[0x30, 0x07]);
    cpu.v_reg[0] = 8;
    assert_eq!(cpu.tick(0), Ok(()));
    assert_eq!(cpu.pc, 0x202);
    // 4XNN skips when unequal.
    let mut cpu = boot(&[0x40, 0x07]);
    cpu.v_reg[0] = 8;
    assert_eq!(cpu.tick(0), Ok(()));
    assert_eq!(cpu.pc, 0x204);
    // 5XY0 skips when registers match.
    let mut cpu = boot(&[0x50, 0x10]);
    cpu.v_reg[0] = 9;
    cpu.v_reg[1] = 9;
    assert_eq!(cpu.tick(0), Ok(()));
    assert_eq!(cpu.pc, 0x204);
    // 9XY0 skips when registers differ.
    let mut cpu = boot(&[0x90, 0x10]);
    cpu.v_reg[0] = 9;
    cpu.v_reg[1] = 8;
    assert_eq!(cpu.tick(0), Ok(()));
    assert_eq!(cpu.pc, 0x204);
}

#[test]
fn jumps() {
    let mut cpu = boot(&[0x13, 0x45]);
    assert_eq!(cpu.tick(0), Ok(()));
    assert_eq!(cpu.pc, 0x345);
    let mut cpu = boot(&[0xB3, 0x00]);
    cpu.v_reg[0] = 4;
    assert_eq!(cpu.tick(0), Ok(()));
    assert_eq!(cpu.pc, 0x304);
}

#[test]
fn call_then_return_restores_pc() {
    let mut cpu = boot(&[0x23, 0x00]);
    cpu.ram[0x300] = 0x00;
    cpu.ram[0x301] = 0xEE;
    assert_eq!(cpu.tick(0), Ok(()));
    assert_eq!(cpu.pc, 0x300);
    assert_eq!(cpu.sp, 1);
    assert_eq!(cpu.stack[0], 0x202);
    assert_eq!(cpu.tick(0), Ok(()));
    // Back on the instruction following the call.
    assert_eq!(cpu.pc, 0x202);
    assert_eq!(cpu.sp, 0);
}

#[test]
fn return_on_empty_stack_faults() {
    let mut cpu = boot(&[0x00, 0xEE]);
    assert_eq!(cpu.tick(0), Err(Fault::CorruptState));
    assert_eq!(cpu.pc, 0x200);
    assert_eq!(cpu.sp, 0);
}

#[test]
fn call_on_full_stack_faults() {
    let mut cpu = boot(&[0x23, 0x00]);
    cpu.sp = 16;
    assert_eq!(cpu.tick(0), Err(Fault::CorruptState));
    assert_eq!(cpu.pc, 0x200);
    assert_eq!(cpu.sp, 16);
}

#[test]
fn set_and_add_address_register() {
    let mut cpu = boot(&[0xA1, 0x23, 0xF0, 0x1E]);
    assert_eq!(cpu.tick(0), Ok(()));
    assert_eq!(cpu.i_reg, 0x123);
    cpu.v_reg[0] = 2;
    assert_eq!(cpu.tick(0), Ok(()));
    assert_eq!(cpu.i_reg, 0x125);
}

#[test]
fn add_address_register_wraps() {
    let mut cpu = boot(&[0xF0, 0x1E]);
    cpu.i_reg = 0xFFFF;
    cpu.v_reg[0] = 1;
    assert_eq!(cpu.tick(0), Ok(()));
    assert_eq!(cpu.i_reg, 0);
}

#[test]
fn random_is_masked_driver_byte() {
    let mut cpu = boot(&[0xC0, 0xFF, 0xC1, 0x0F]);
    assert_eq!(cpu.tick(0xAB), Ok(()));
    assert_eq!(cpu.v_reg[0], 0xAB);
    assert_eq!(cpu.tick(0xAB), Ok(()));
    assert_eq!(cpu.v_reg[1], 0x0B);
}

#[test]
fn draw_on_blank_never_collides() {
    let mut cpu = boot(&[0xD0, 0x11]);
    cpu.ram[0x300] = 0xFF;
    cpu.i_reg = 0x300;
    assert_eq!(cpu.tick(0), Ok(()));
    assert_eq!(cpu.v_reg[0xF], 0);
    for x in 0..8 {
        assert!(cpu.screen[x]);
    }
    for x in 8..64 {
        assert!(!cpu.screen[x]);
    }
}

#[test]
fn draw_twice_restores_blank_and_collides() {
    let mut cpu = boot(&[0xD0, 0x12, 0xD0, 0x12]);
    cpu.ram[0x300] = 0xA5;
    cpu.ram[0x301] = 0x5A;
    cpu.i_reg = 0x300;
    assert_eq!(cpu.tick(0), Ok(()));
    assert_eq!(cpu.v_reg[0xF], 0);
    assert_eq!(cpu.tick(0), Ok(()));
    assert_eq!(cpu.v_reg[0xF], 1);
    assert!(cpu.screen.iter().all(|&p| !p));
}

#[test]
fn draw_wraps_horizontally() {
    // Two-pixel-wide sprite at x = 63: second column lands at x = 0.
    let mut cpu = boot(&[0xD0, 0x11]);
    cpu.ram[0x300] = 0xC0;
    cpu.i_reg = 0x300;
    cpu.v_reg[0] = 63;
    cpu.v_reg[1] = 0;
    assert_eq!(cpu.tick(0), Ok(()));
    assert!(cpu.screen[63]);
    assert!(cpu.screen[0]);
    assert!(!cpu.screen[1]);
    assert!(!cpu.screen[62]);
}

#[test]
fn draw_wraps_vertically() {
    // Two-row sprite at y = 31: second row lands at y = 0.
    let mut cpu = boot(&[0xD0, 0x12]);
    cpu.ram[0x300] = 0x80;
    cpu.ram[0x301] = 0x80;
    cpu.i_reg = 0x300;
    cpu.v_reg[0] = 0;
    cpu.v_reg[1] = 31;
    assert_eq!(cpu.tick(0), Ok(()));
    assert!(cpu.screen[31 * 64]);
    assert!(cpu.screen[0]);
}

#[test]
fn draw_past_memory_end_faults() {
    let mut cpu = boot(&[0xD0, 0x1F]);
    cpu.i_reg = 4090;
    assert_eq!(cpu.tick(0), Err(Fault::CorruptState));
    assert_eq!(cpu.pc, 0x200);
    assert!(cpu.screen.iter().all(|&p| !p));
}

#[test]
fn clear_screen_unlights_everything() {
    let mut cpu = boot(&[0x00, 0xE0]);
    cpu.screen[5] = true;
    cpu.screen[2047] = true;
    assert_eq!(cpu.tick(0), Ok(()));
    assert!(cpu.screen.iter().all(|&p| !p));
}

#[test]
fn skip_on_key_state() {
    let mut cpu = boot(&[0xE0, 0x9E]);
    cpu.v_reg[0] = 4;
    cpu.keypress(4, true);
    assert_eq!(cpu.tick(0), Ok(()));
    assert_eq!(cpu.pc, 0x204);
    let mut cpu = boot(&[0xE0, 0xA1]);
    cpu.v_reg[0] = 4;
    assert_eq!(cpu.tick(0), Ok(()));
    assert_eq!(cpu.pc, 0x204);
    let mut cpu = boot(&[0xE0, 0xA1]);
    cpu.v_reg[0] = 4;
    cpu.keypress(4, true);
    assert_eq!(cpu.tick(0), Ok(()));
    assert_eq!(cpu.pc, 0x202);
}

#[test]
fn key_test_with_bad_register_value_faults() {
    let mut cpu = boot(&[0xE0, 0x9E]);
    cpu.v_reg[0] = 16;
    assert_eq!(cpu.tick(0), Err(Fault::CorruptState));
    assert_eq!(cpu.pc, 0x200);
}

#[test]
fn wait_key_blocks_until_key() {
    let mut cpu = boot(&[0xF3, 0x0A]);
    // No key pressed: the program counter stays put across repeated steps.
    assert_eq!(cpu.tick(0), Ok(()));
    assert_eq!(cpu.pc, 0x200);
    assert_eq!(cpu.tick(0), Ok(()));
    assert_eq!(cpu.pc, 0x200);
    // A key arrives: its index is captured and execution proceeds.
    cpu.keypress(7, true);
    assert_eq!(cpu.tick(0), Ok(()));
    assert_eq!(cpu.pc, 0x202);
    assert_eq!(cpu.v_reg[3], 7);
}

#[test]
fn wait_key_lowest_index_wins() {
    let mut cpu = boot(&[0xF3, 0x0A]);
    cpu.keypress(9, true);
    cpu.keypress(2, true);
    assert_eq!(cpu.tick(0), Ok(()));
    assert_eq!(cpu.v_reg[3], 2);
}

#[test]
fn timer_transfers() {
    let mut cpu = boot(&[0x60, 0x30, 0xF0, 0x15, 0xF0, 0x18, 0xF1, 0x07]);
    assert_eq!(cpu.tick(0), Ok(())); // V0 = 0x30
    assert_eq!(cpu.tick(0), Ok(())); // DT = V0
    assert_eq!(cpu.dt, 0x30);
    assert_eq!(cpu.tick(0), Ok(())); // ST = V0
    assert_eq!(cpu.st, 0x30);
    assert_eq!(cpu.tick(0), Ok(())); // V1 = DT
    assert_eq!(cpu.v_reg[1], 0x30);
}

#[test]
fn delay_timer_stops_at_zero() {
    let mut cpu = Cpu::new();
    cpu.dt = 2;
    cpu.tick_timers();
    assert_eq!(cpu.dt, 1);
    cpu.tick_timers();
    assert_eq!(cpu.dt, 0);
    cpu.tick_timers();
    assert_eq!(cpu.dt, 0);
}

#[test]
fn sound_timer_beeps_on_last_tick() {
    let mut cpu = Cpu::new();
    cpu.st = 2;
    assert!(!cpu.tick_timers_beep());
    assert_eq!(cpu.st, 1);
    assert!(cpu.tick_timers_beep());
    assert_eq!(cpu.st, 0);
    assert!(!cpu.tick_timers_beep());
    assert_eq!(cpu.st, 0);
}

#[test]
fn bcd_decomposition() {
    let mut cpu = boot(&[0xF0, 0x33, 0xF1, 0x33]);
    cpu.v_reg[0] = 255;
    cpu.v_reg[1] = 7;
    cpu.i_reg = 0x400;
    assert_eq!(cpu.tick(0), Ok(()));
    assert_eq!(&cpu.ram[0x400..0x403], &[2, 5, 5]);
    assert_eq!(cpu.tick(0), Ok(()));
    assert_eq!(&cpu.ram[0x400..0x403], &[0, 0, 7]);
}

#[test]
fn bcd_past_memory_end_faults() {
    let mut cpu = boot(&[0xF0, 0x33]);
    cpu.i_reg = 4094;
    assert_eq!(cpu.tick(0), Err(Fault::CorruptState));
    assert_eq!(cpu.pc, 0x200);
}

#[test]
fn font_lookup() {
    let mut cpu = boot(&[0xF0, 0x29, 0xF1, 0x29]);
    cpu.v_reg[0] = 0;
    cpu.v_reg[1] = 1;
    assert_eq!(cpu.tick(0), Ok(()));
    assert_eq!(cpu.i_reg, 0);
    assert_eq!(cpu.tick(0), Ok(()));
    assert_eq!(cpu.i_reg, 5);
    // The glyph bytes for digit 1 sit there.
    assert_eq!(&cpu.ram[5..10], &[0x20, 0x60, 0x20, 0x20, 0x70]);
}

#[test]
fn store_and_load_register_block() {
    let mut cpu = boot(&[0xF2, 0x55, 0x62, 0x00, 0xF2, 0x65]);
    cpu.v_reg[0] = 11;
    cpu.v_reg[1] = 22;
    cpu.v_reg[2] = 33;
    cpu.i_reg = 0x500;
    assert_eq!(cpu.tick(0), Ok(()));
    assert_eq!(&cpu.ram[0x500..0x503], &[11, 22, 33]);
    assert_eq!(cpu.i_reg, 0x500); // the address register is not modified
    assert_eq!(cpu.tick(0), Ok(())); // V2 = 0
    assert_eq!(cpu.v_reg[2], 0);
    assert_eq!(cpu.tick(0), Ok(())); // reload registers from memory
    assert_eq!(cpu.v_reg[2], 33);
}

#[test]
fn register_block_past_memory_end_faults() {
    let mut cpu = boot(&[0xFF, 0x55]);
    cpu.i_reg = 4081;
    assert_eq!(cpu.tick(0), Err(Fault::CorruptState));
    assert_eq!(cpu.pc, 0x200);
    let mut cpu = boot(&[0xFF, 0x65]);
    cpu.i_reg = 4081;
    assert_eq!(cpu.tick(0), Err(Fault::CorruptState));
    assert_eq!(cpu.pc, 0x200);
}

#[test]
fn unknown_opcodes_fault_without_change() {
    for program in [[0x00u8, 0x01], [0x50, 0x11], [0x90, 0x11], [0x80, 0x18], [0xE0, 0x00], [
        0xF0,
        0x66,
    ]] {
        let mut cpu = boot(&program);
        assert_eq!(cpu.tick(0), Err(Fault::UnknownOpcode));
        assert_eq!(cpu.pc, 0x200);
    }
}

#[test]
fn fetch_past_memory_end_faults() {
    let mut cpu = Cpu::new();
    cpu.pc = 4095;
    assert_eq!(cpu.tick(0), Err(Fault::CorruptState));
    assert_eq!(cpu.pc, 4095);
}

#[test]
fn reset_restores_everything_but_keeps_glyphs() {
    let mut cpu = boot(&[0x60, 0x2A, 0xA3, 0x00, 0x23, 0x00]);
    assert_eq!(cpu.tick(0), Ok(()));
    assert_eq!(cpu.tick(0), Ok(()));
    assert_eq!(cpu.tick(0), Ok(()));
    cpu.dt = 9;
    cpu.st = 9;
    cpu.keypress(3, true);
    cpu.screen[100] = true;
    cpu.reset();
    assert_eq!(cpu.pc, 0x200);
    assert_eq!(cpu.i_reg, 0);
    assert_eq!(cpu.sp, 0);
    assert_eq!(cpu.dt, 0);
    assert_eq!(cpu.st, 0);
    assert!(cpu.v_reg.iter().all(|&v| v == 0));
    assert!(cpu.keys.iter().all(|&k| !k));
    assert!(cpu.screen.iter().all(|&p| !p));
    assert_eq!(cpu.ram[0], 0xF0);
    assert_eq!(cpu.ram[79], 0x80);
    assert!(cpu.ram[80..].iter().all(|&b| b == 0));
}

use chip_8_emu::cpu::{Cpu, ExecError};
use chip_8_emu::cpu::opcode_impl::{NewShiftBehavior, OldShiftBehavior};
use chip_8_emu::memory::Memory;
use chip_8_emu::timer::Timer;

fn machine(rom: &[u8]) -> (Cpu<NewShiftBehavior>, Memory, Timer) {
    let mut memory = Memory::new();
    memory.load_font_data();
    memory.load_rom_data(rom);
    let cpu = Cpu::new(NewShiftBehavior);
    let timer = Timer::new();
    (cpu, memory, timer)
}

fn run(rom: &[u8], ticks: usize) -> (Cpu<NewShiftBehavior>, Memory, Timer) {
    let (mut cpu, mut memory, mut timer) = machine(rom);
    for _ in 0..ticks {
        cpu.tick(&mut memory, &mut timer).unwrap();
    }
    (cpu, memory, timer)
}

#[test]
fn cpu_test() {

}

#[test]
fn set_and_add_value_to_register() {
    let (cpu, _, _) = run(&[0x60, 0x10, 0x70, 0x05], 2);
    assert_eq!(cpu.var_regs[0], 0x15);
    assert_eq!(cpu.pc, 0x204);
}

#[test]
fn add_value_wraps_without_flag() {
    let (cpu, _, _) = run(&[0x60, 0xFF, 0x70, 0x02], 2);
    assert_eq!(cpu.var_regs[0], 0x01);
    assert_eq!(cpu.var_regs[0xF], 0x00);
}

#[test]
fn add_registers_sets_flag_iff_sum_exceeds_255() {
    // 255 + 1 overflows: result wraps to 0, flag 1.
    let (cpu, _, _) = run(&[0x60, 0xFF, 0x61, 0x01, 0x80, 0x14], 3);
    assert_eq!(cpu.var_regs[0], 0x00);
    assert_eq!(cpu.var_regs[0xF], 1);

    // 0x10 + 0x20 does not: result is the sum, flag 0.
    let (cpu, _, _) = run(&[0x60, 0x10, 0x61, 0x20, 0x80, 0x14], 3);
    assert_eq!(cpu.var_regs[0], 0x30);
    assert_eq!(cpu.var_regs[0xF], 0);
}

#[test]
fn subtract_registers_flag_reports_no_borrow() {
    // 10 - 3: no borrow, flag 1.
    let (cpu, _, _) = run(&[0x60, 0x0A, 0x61, 0x03, 0x80, 0x15], 3);
    assert_eq!(cpu.var_regs[0], 7);
    assert_eq!(cpu.var_regs[0xF], 1);

    // 3 - 10: borrow, flag 0, result wraps modulo 256.
    let (cpu, _, _) = run(&[0x60, 0x03, 0x61, 0x0A, 0x80, 0x15], 3);
    assert_eq!(cpu.var_regs[0], 249);
    assert_eq!(cpu.var_regs[0xF], 0);
}

#[test]
fn negative_subtract_takes_operands_reversed() {
    // r0 = r1 - r0 = 10 - 3 = 7, no borrow.
    let (cpu, _, _) = run(&[0x60, 0x03, 0x61, 0x0A, 0x80, 0x17], 3);
    assert_eq!(cpu.var_regs[0], 7);
    assert_eq!(cpu.var_regs[0xF], 1);
}

#[test]
fn copy_or_and_xor_registers() {
    let (cpu, _, _) = run(&[0x60, 0x0C, 0x61, 0x0A, 0x80, 0x10], 3);
    assert_eq!(cpu.var_regs[0], 0x0A);

    let (cpu, _, _) = run(&[0x60, 0x0C, 0x61, 0x0A, 0x80, 0x11], 3);
    assert_eq!(cpu.var_regs[0], 0x0C | 0x0A);

    let (cpu, _, _) = run(&[0x60, 0x0C, 0x61, 0x0A, 0x80, 0x12], 3);
    assert_eq!(cpu.var_regs[0], 0x0C & 0x0A);

    let (cpu, _, _) = run(&[0x60, 0x0C, 0x61, 0x0A, 0x80, 0x13], 3);
    assert_eq!(cpu.var_regs[0], 0x0C ^ 0x0A);
}

#[test]
fn modern_shift_copies_source_register_first() {
    // Shift left: source is r1 under the modern policy.
    let (cpu, _, _) = run(&[0x60, 0x81, 0x61, 0x42, 0x80, 0x1E], 3);
    assert_eq!(cpu.var_regs[0], 0x84);
    assert_eq!(cpu.var_regs[0xF], 0);

    // Shift right: bit 0 of the source lands in the flag.
    let (cpu, _, _) = run(&[0x60, 0x81, 0x61, 0x43, 0x80, 0x16], 3);
    assert_eq!(cpu.var_regs[0], 0x21);
    assert_eq!(cpu.var_regs[0xF], 1);
}

#[test]
fn legacy_shift_ignores_source_register() {
    let rom = [0x60, 0x81, 0x61, 0x42, 0x80, 0x1E];
    let mut memory = Memory::new();
    memory.load_font_data();
    memory.load_rom_data(&rom);
    let mut cpu = Cpu::new(OldShiftBehavior);
    let mut timer = Timer::new();
    for _ in 0..3 {
        cpu.tick(&mut memory, &mut timer).unwrap();
    }
    // Shift left in place: r0 = 0x81 << 1 = 0x02, bit 7 into the flag.
    assert_eq!(cpu.var_regs[0], 0x02);
    assert_eq!(cpu.var_regs[0xF], 1);
}

#[test]
fn jump_moves_program_counter() {
    let (cpu, _, _) = run(&[0x12, 0x34], 1);
    assert_eq!(cpu.pc, 0x234);
}

#[test]
fn jump_with_offset_adds_register_zero() {
    let (cpu, _, _) = run(&[0x60, 0x10, 0xB3, 0x00], 2);
    assert_eq!(cpu.pc, 0x310);
}

#[test]
fn subroutine_call_and_return() {
    // 0x200: call 0x206; 0x206: return.
    let rom = [0x22, 0x06, 0x00, 0x00, 0x00, 0x00, 0x00, 0xEE];
    let (mut cpu, mut memory, mut timer) = machine(&rom);

    cpu.tick(&mut memory, &mut timer).unwrap();
    assert_eq!(cpu.pc, 0x206);
    assert_eq!(cpu.stack.vector, vec![0x202u16]);

    cpu.tick(&mut memory, &mut timer).unwrap();
    assert_eq!(cpu.pc, 0x202);
    assert!(cpu.stack.vector.is_empty());
}

#[test]
fn return_on_empty_stack_is_fatal() {
    let (mut cpu, mut memory, mut timer) = machine(&[0x00, 0xEE]);
    assert_eq!(cpu.tick(&mut memory, &mut timer), Err(ExecError::StackUnderflow));
}

#[test]
fn unknown_opcode_is_fatal() {
    let (mut cpu, mut memory, mut timer) = machine(&[0xFF, 0xFF]);
    assert_eq!(cpu.tick(&mut memory, &mut timer), Err(ExecError::UnknownOpcode));
}

#[test]
fn machine_language_routine_is_fatal() {
    let (mut cpu, mut memory, mut timer) = machine(&[0x01, 0x23]);
    assert_eq!(cpu.tick(&mut memory, &mut timer), Err(ExecError::MachineLanguageRoutine));
}

#[test]
fn sprite_rows_past_end_of_memory_are_fatal() {
    // I = 0xFFF, then a five-row draw would read past address 4095.
    let (mut cpu, mut memory, mut timer) = machine(&[0xAF, 0xFF, 0xD0, 0x15]);
    cpu.tick(&mut memory, &mut timer).unwrap();
    assert_eq!(cpu.tick(&mut memory, &mut timer), Err(ExecError::MemoryOutOfBounds));
}

#[test]
fn skip_if_equal_value_skips_next_instruction() {
    // r0 = 0x0A; skip when r0 == 0x0A; the skipped word would set r1.
    let (cpu, _, _) = run(&[0x60, 0x0A, 0x30, 0x0A, 0x61, 0x99, 0x62, 0x01], 3);
    assert_eq!(cpu.var_regs[1], 0x00);
    assert_eq!(cpu.var_regs[2], 0x01);

    // No skip when the values differ.
    let (cpu, _, _) = run(&[0x60, 0x0B, 0x30, 0x0A, 0x61, 0x99], 3);
    assert_eq!(cpu.var_regs[1], 0x99);
}

#[test]
fn skip_register_comparisons() {
    let (cpu, _, _) = run(&[0x60, 0x07, 0x61, 0x07, 0x50, 0x10, 0x62, 0x99, 0x63, 0x01], 4);
    assert_eq!(cpu.var_regs[2], 0x00);
    assert_eq!(cpu.var_regs[3], 0x01);

    let (cpu, _, _) = run(&[0x60, 0x07, 0x61, 0x08, 0x90, 0x10, 0x62, 0x99, 0x63, 0x01], 4);
    assert_eq!(cpu.var_regs[2], 0x00);
    assert_eq!(cpu.var_regs[3], 0x01);
}

#[test]
fn set_and_add_index_register() {
    let (cpu, _, _) = run(&[0xA3, 0x00, 0x60, 0x05, 0xF0, 0x1E], 3);
    assert_eq!(cpu.index_reg, 0x305);
    assert_eq!(cpu.var_regs[0xF], 0);
}

#[test]
fn add_index_register_flags_overflow_past_addressable_space() {
    let (cpu, _, _) = run(&[0xAF, 0xFF, 0x60, 0xFF, 0xF0, 0x1E], 3);
    assert_eq!(cpu.index_reg, 0xFFF + 0xFF);
    assert_eq!(cpu.var_regs[0xF], 1);
}

#[test]
fn font_character_points_index_at_glyph() {
    let (cpu, _, _) = run(&[0x60, 0x0A, 0xF0, 0x29], 2);
    assert_eq!(cpu.index_reg, 0x50 + 5 * 10);
}

#[test]
fn decimal_conversion_writes_digits_most_significant_first() {
    let (_, memory, _) = run(&[0x60, 0xFF, 0xA3, 0x00, 0xF0, 0x33], 3);
    assert_eq!(memory.data[0x300], 2);
    assert_eq!(memory.data[0x301], 5);
    assert_eq!(memory.data[0x302], 5);

    let (_, memory, _) = run(&[0x60, 0x2A, 0xA3, 0x00, 0xF0, 0x33], 3);
    assert_eq!(memory.data[0x300], 4);
    assert_eq!(memory.data[0x301], 2);
    assert_eq!(memory.data[0x302], 0);

    let (_, memory, _) = run(&[0x60, 0x07, 0xA3, 0x00, 0xF0, 0x33], 3);
    assert_eq!(memory.data[0x300], 7);
    assert_eq!(memory.data[0x301], 0);
}

#[test]
fn block_store_then_load_round_trips() {
    let rom = [
        0x60, 0x11, // r0 = 0x11
        0x61, 0x22, // r1 = 0x22
        0x62, 0x33, // r2 = 0x33
        0xA3, 0x00, // I = 0x300
        0xF2, 0x55, // store r0..r2 at I
        0x60, 0x00, // clobber r0
        0x61, 0x00, // clobber r1
        0x62, 0x00, // clobber r2
        0xF2, 0x65, // load r0..r2 from I
    ];
    let (mut cpu, mut memory, mut timer) = machine(&rom);
    for _ in 0..5 {
        cpu.tick(&mut memory, &mut timer).unwrap();
    }
    assert_eq!(memory.data[0x300], 0x11);
    assert_eq!(memory.data[0x301], 0x22);
    assert_eq!(memory.data[0x302], 0x33);
    let index_before = cpu.index_reg;

    for _ in 0..4 {
        cpu.tick(&mut memory, &mut timer).unwrap();
    }
    assert_eq!(cpu.var_regs[0], 0x11);
    assert_eq!(cpu.var_regs[1], 0x22);
    assert_eq!(cpu.var_regs[2], 0x33);
    // The chosen policy leaves the index register unmodified.
    assert_eq!(cpu.index_reg, index_before);
}

#[test]
fn block_operations_past_end_of_memory_are_fatal() {
    let (mut cpu, mut memory, mut timer) = machine(&[0xAF, 0xFE, 0xF2, 0x65]);
    cpu.tick(&mut memory, &mut timer).unwrap();
    assert_eq!(cpu.tick(&mut memory, &mut timer), Err(ExecError::MemoryOutOfBounds));
}

#[test]
fn clear_zeroes_every_display_cell() {
    // Draw a glyph first so the display is not already blank, then clear.
    let rom = [0x60, 0x00, 0x61, 0x00, 0xA0, 0x50, 0xD0, 0x15, 0x00, 0xE0];
    let (mut cpu, mut memory, mut timer) = machine(&rom);
    for _ in 0..4 {
        cpu.tick(&mut memory, &mut timer).unwrap();
    }
    assert!(cpu.display.iter().any(|row| row.iter().any(|&c| c != 0)));

    cpu.tick(&mut memory, &mut timer).unwrap();
    assert!(cpu.display.iter().all(|row| row.iter().all(|&c| c == 0)));
}

#[test]
fn draw_renders_glyph_and_reports_no_collision_on_blank_grid() {
    let rom = [0x60, 0x00, 0x61, 0x00, 0xA0, 0x50, 0xD0, 0x15];
    let (cpu, _, _) = run(&rom, 4);
    // Glyph 0's first row is 0xF0: four lit cells, then four clear.
    assert_eq!(&cpu.display[0][0..8], &[1, 1, 1, 1, 0, 0, 0, 0]);
    // Its second row is 0x90.
    assert_eq!(&cpu.display[1][0..8], &[1, 0, 0, 1, 0, 0, 0, 0]);
    assert_eq!(cpu.var_regs[0xF], 0);
}

#[test]
fn drawing_identical_sprite_twice_restores_prior_state() {
    let rom = [0x60, 0x05, 0x61, 0x03, 0xA0, 0x50, 0xD0, 0x15, 0xD0, 0x15];
    let (mut cpu, mut memory, mut timer) = machine(&rom);
    for _ in 0..4 {
        cpu.tick(&mut memory, &mut timer).unwrap();
    }
    assert!(cpu.display.iter().any(|row| row.iter().any(|&c| c != 0)));
    assert_eq!(cpu.var_regs[0xF], 0);

    cpu.tick(&mut memory, &mut timer).unwrap();
    // Every cell is back to its pre-first-draw state (all clear), and the
    // second draw collided with what the first draw set.
    assert!(cpu.display.iter().all(|row| row.iter().all(|&c| c == 0)));
    assert_eq!(cpu.var_regs[0xF], 1);
}

#[test]
fn draw_anchor_wraps_but_sprite_body_clips() {
    // Anchor x = 68 wraps to 4; anchor y = 30 is in range; a five-row
    // glyph at y = 30 draws only rows 30 and 31.
    let rom = [0x60, 0x44, 0x61, 0x1E, 0xA0, 0x50, 0xD0, 0x15];
    let (cpu, _, _) = run(&rom, 4);
    assert_eq!(&cpu.display[30][4..12], &[1, 1, 1, 1, 0, 0, 0, 0]);
    assert_eq!(&cpu.display[31][4..12], &[1, 0, 0, 1, 0, 0, 0, 0]);
    // Nothing wrapped back to the top.
    assert!(cpu.display[0].iter().all(|&c| c == 0));

    // Anchor x = 60: the right half of each row is clipped, not wrapped.
    let rom = [0x60, 0x3C, 0x61, 0x00, 0xA0, 0x50, 0xD0, 0x15];
    let (cpu, _, _) = run(&rom, 4);
    assert_eq!(&cpu.display[0][60..64], &[1, 1, 1, 1]);
    assert_eq!(cpu.display[0][0], 0);
}

#[test]
fn draw_of_zero_rows_only_resets_the_flag() {
    let (mut cpu, mut memory, mut timer) = machine(&[0x6F, 0x01, 0xD1, 0x20]);
    cpu.tick(&mut memory, &mut timer).unwrap();
    assert_eq!(cpu.var_regs[0xF], 1);

    cpu.tick(&mut memory, &mut timer).unwrap();
    assert!(cpu.display.iter().all(|row| row.iter().all(|&c| c == 0)));
    assert_eq!(cpu.var_regs[0xF], 0);
}

#[test]
fn random_result_honors_mask() {
    for _ in 0..20 {
        let (cpu, _, _) = run(&[0xC0, 0x3F], 1);
        assert_eq!(cpu.var_regs[0] & !0x3F, 0);
    }
    let (cpu, _, _) = run(&[0xC0, 0x00], 1);
    assert_eq!(cpu.var_regs[0], 0);
}

#[test]
fn timer_opcodes_transfer_values() {
    let (mut cpu, mut memory, mut timer) = machine(&[0x60, 0x3C, 0xF0, 0x15, 0xF1, 0x07, 0xF0, 0x18]);
    for _ in 0..4 {
        cpu.tick(&mut memory, &mut timer).unwrap();
    }
    assert_eq!(timer.get_delay_timer(), 0x3C);
    assert_eq!(timer.get_sound_timer(), 0x3C);
    assert_eq!(cpu.var_regs[1], 0x3C);
}

#[test]
fn skip_if_key_pressed_consults_current_snapshot() {
    let rom = [0x60, 0x05, 0xE0, 0x9E, 0x61, 0x99, 0x62, 0x01];
    let (mut cpu, mut memory, mut timer) = machine(&rom);
    let mut keys = [0u8; 16];
    keys[5] = 1;
    cpu.update_input_state(keys);
    for _ in 0..3 {
        cpu.tick(&mut memory, &mut timer).unwrap();
    }
    assert_eq!(cpu.var_regs[1], 0x00);
    assert_eq!(cpu.var_regs[2], 0x01);
}

#[test]
fn skip_if_key_not_pressed_consults_current_snapshot() {
    let rom = [0x60, 0x05, 0xE0, 0xA1, 0x61, 0x99, 0x62, 0x01];
    let (mut cpu, mut memory, mut timer) = machine(&rom);
    for _ in 0..3 {
        cpu.tick(&mut memory, &mut timer).unwrap();
    }
    assert_eq!(cpu.var_regs[1], 0x00);
    assert_eq!(cpu.var_regs[2], 0x01);
}

#[test]
fn key_wait_blocks_until_a_key_is_released() {
    let (mut cpu, mut memory, mut timer) = machine(&[0xF0, 0x0A, 0x61, 0x01]);

    // Identical current and previous snapshots: the engine re-presents the
    // same key-wait instruction on the next tick.
    cpu.update_input_state([0; 16]);
    cpu.tick(&mut memory, &mut timer).unwrap();
    assert_eq!(cpu.pc, 0x200);
    cpu.tick(&mut memory, &mut timer).unwrap();
    assert_eq!(cpu.pc, 0x200);

    // A key goes down: still no release, still waiting.
    let mut keys = [0u8; 16];
    keys[7] = 1;
    cpu.update_input_state(keys);
    cpu.tick(&mut memory, &mut timer).unwrap();
    assert_eq!(cpu.pc, 0x200);

    // The key comes back up: the wait ends, the key index lands in the
    // destination register, and execution proceeds to the next instruction.
    cpu.update_input_state([0; 16]);
    cpu.tick(&mut memory, &mut timer).unwrap();
    assert_eq!(cpu.var_regs[0], 7);
    assert_eq!(cpu.pc, 0x202);

    cpu.tick(&mut memory, &mut timer).unwrap();
    assert_eq!(cpu.var_regs[1], 1);
}

#[test]
fn fetch_past_end_of_memory_is_fatal() {
    let (mut cpu, mut memory, mut timer) = machine(&[0x1F, 0xFF]);
    cpu.tick(&mut memory, &mut timer).unwrap();
    assert_eq!(cpu.pc, 0xFFF);
    assert_eq!(cpu.tick(&mut memory, &mut timer), Err(ExecError::MemoryOutOfBounds));
}

#[test]
fn new_cpu_starts_at_rom_load_address() {
    let cpu: Cpu<NewShiftBehavior> = Cpu::new(NewShiftBehavior);
    assert_eq!(cpu.pc, 0x200);
    assert_eq!(cpu.index_reg, 0);
    assert_eq!(cpu.var_regs, [0; 16]);
    assert_eq!(cpu.get_cpu_frequency(), 700);
    assert!(cpu.get_display().iter().all(|row| row.iter().all(|&c| c == 0)));
}

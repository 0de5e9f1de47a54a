use chip8_core::chip_8::{Chip8, RomError};
use chip8_core::cpu_state::{CpuState, Mode};
use chip8_core::instruction::Instruction;
use chip8_core::keypad::KeyPad;

fn machine(mode: Mode, rom: &[u8]) -> Chip8 {
    let mut m = Chip8::new(mode);
    m.start(rom).unwrap();
    m
}

fn run(m: &mut Chip8, steps: usize) {
    for _ in 0..steps {
        m.step(0);
    }
}

fn pixel(plane: &[bool; 8192], x: usize, y: usize) -> bool {
    plane[y * 128 + x]
}

#[test]
fn add_without_carry_after_three_ticks() {
    let mut m = machine(Mode::Chip8, &[0x6A, 0x02, 0x6B, 0x03, 0x8A, 0xB4]);
    run(&mut m, 3);
    assert_eq!(m.state.registers[0xA], 5);
    assert_eq!(m.state.registers[0xB], 3);
    assert_eq!(m.state.registers[0xF], 0);
}

#[test]
fn add_with_carry_wraps_and_sets_flag() {
    let mut m = machine(Mode::Chip8, &[0x60, 0xFF, 0x61, 0x01, 0x80, 0x14]);
    run(&mut m, 3);
    assert_eq!(m.state.registers[0x0], 0x00);
    assert_eq!(m.state.registers[0x1], 0x01);
    assert_eq!(m.state.registers[0xF], 1);
}

#[test]
fn bcd_of_register_zero() {
    let mut m = machine(Mode::Chip8, &[0xA3, 0x00, 0xF0, 0x33]);
    m.state.registers[0] = 0xAB;
    m.state.i = 0x300;
    run(&mut m, 2);
    assert_eq!(&m.state.memory[0x300..0x303], &[1, 7, 1]);
}

#[test]
fn glyph_five_drawn_in_lores() {
    let mut m = machine(Mode::Chip8, &[0x60, 0x05, 0xF0, 0x29, 0xD0, 0x05]);
    run(&mut m, 3);
    assert_eq!(m.state.i, 0x50 + 5 * 5);
    // D005 names V0 (= 5) for both coordinates: the glyph's 2x2 blocks start at (10, 10).
    let glyph = [0xF0u8, 0x80, 0xF0, 0x10, 0xF0];
    for py in 0..24 {
        for px in 0..32 {
            let inside = (10..20).contains(&py) && (10..26).contains(&px);
            let expected = inside && (glyph[(py - 10) / 2] >> (7 - (px - 10) / 2)) & 1 == 1;
            assert_eq!(pixel(&m.display.plane_1, px, py), expected, "pixel ({}, {})", px, py);
        }
    }
    assert_eq!(m.display.plane_1.iter().filter(|p| **p).count(), 4 * (4 + 1 + 4 + 1 + 4));
    assert_eq!(m.state.registers[0xF], 0);
}

#[test]
fn logic_clears_flag_only_on_chip8() {
    let rom = [0x6A, 0xFF, 0x6B, 0x01, 0x8A, 0xB1];
    let mut c8 = machine(Mode::Chip8, &rom);
    c8.state.registers[0xF] = 7;
    run(&mut c8, 3);
    assert_eq!(c8.state.registers[0xA], 0xFF);
    assert_eq!(c8.state.registers[0xF], 0);

    let mut sc = machine(Mode::SuperChip, &rom);
    sc.state.registers[0xF] = 7;
    run(&mut sc, 3);
    assert_eq!(sc.state.registers[0xA], 0xFF);
    assert_eq!(sc.state.registers[0xF], 7);
}

#[test]
fn long_index_load_consumes_operand_word() {
    let mut m = machine(Mode::XoChip, &[0xF0, 0x00, 0xAB, 0xCD, 0x00, 0xE0]);
    run(&mut m, 1);
    assert_eq!(m.state.i, 0xABCD);
    assert_eq!(m.state.pc, 0x204);
    assert_eq!(m.state.fetch(), 0x00E0);
}

#[test]
fn bcd_of_chosen_values() {
    for (val, digits) in [(0u8, [0u8, 0, 0]), (99, [0, 9, 9]), (100, [1, 0, 0]), (123, [1, 2, 3]), (255, [2, 5, 5])] {
        let mut m = machine(Mode::Chip8, &[0xF3, 0x33]);
        m.state.registers[3] = val;
        m.state.i = 0x400;
        run(&mut m, 1);
        assert_eq!(&m.state.memory[0x400..0x403], &digits, "value {}", val);
    }
}

#[test]
fn bcd_wraps_at_end_of_memory() {
    let mut m = machine(Mode::Chip8, &[0xF3, 0x33]);
    m.state.registers[3] = 123;
    m.state.i = 0xFFFF;
    run(&mut m, 1);
    assert_eq!(m.state.memory[0xFFFF], 1);
    assert_eq!(m.state.memory[0x0000], 2);
    assert_eq!(m.state.memory[0x0001], 3);
}

fn corner_draw(mode: Mode) -> Chip8 {
    // V0 = 127, V1 = 63, I = 0x300, draw two rows of 0xFF.
    let mut m = machine(mode, &[0x60, 0x7F, 0x61, 0x3F, 0xA3, 0x00, 0xD0, 0x12]);
    m.state.memory[0x300] = 0xFF;
    m.state.memory[0x301] = 0xFF;
    run(&mut m, 4);
    m
}

#[test]
fn corner_sprite_clipped_on_chip8_and_superchip() {
    for mode in [Mode::Chip8, Mode::SuperChip] {
        let m = corner_draw(mode);
        assert!(pixel(&m.display.plane_1, 126, 62));
        assert!(pixel(&m.display.plane_1, 127, 63));
        assert!(!pixel(&m.display.plane_1, 0, 0));
        assert!(!pixel(&m.display.plane_1, 0, 62));
        let on = m.display.plane_1.iter().filter(|p| **p).count();
        assert_eq!(on, 4);
    }
}

#[test]
fn corner_sprite_wrapped_on_xochip() {
    let m = corner_draw(Mode::XoChip);
    assert!(pixel(&m.display.plane_1, 126, 62));
    assert!(pixel(&m.display.plane_1, 0, 0));
    assert!(pixel(&m.display.plane_1, 13, 1));
    assert!(pixel(&m.display.plane_1, 0, 62));
    assert!(!pixel(&m.display.plane_1, 14, 0));
    let on = m.display.plane_1.iter().filter(|p| **p).count();
    assert_eq!(on, 16 * 4);
}

#[test]
fn wait_for_key_completes_on_release() {
    let mut m = machine(Mode::Chip8, &[0xF4, 0x0A, 0x00, 0xE0]);
    run(&mut m, 3);
    assert_eq!(m.state.pc, 0x200);
    m.handle_input(KeyPad::Num5, true);
    for _ in 0..10 {
        m.step(0);
        assert_eq!(m.state.pc, 0x200);
        assert_eq!(m.state.awaiting_key, Some(5));
        assert_eq!(m.state.registers[4], 0);
    }
    m.handle_input(KeyPad::Num5, false);
    m.step(0);
    assert_eq!(m.state.registers[4], 5);
    assert_eq!(m.state.pc, 0x202);
    assert_eq!(m.state.awaiting_key, None);
}

#[test]
fn skip_over_long_instruction_moves_four() {
    let mut m = machine(Mode::XoChip, &[0x30, 0x00, 0xF0, 0x00, 0x12, 0x34, 0x00, 0xE0]);
    run(&mut m, 1);
    assert_eq!(m.state.pc, 0x206);
}

#[test]
fn skip_over_short_instruction_moves_two() {
    let mut m = machine(Mode::XoChip, &[0x40, 0x01, 0x00, 0xE0, 0x00, 0xE0]);
    run(&mut m, 1);
    assert_eq!(m.state.pc, 0x204);
}

#[test]
fn set_then_compare_skips_or_not() {
    let mut m = machine(Mode::Chip8, &[0x65, 0x42, 0x35, 0x42, 0x00, 0x00, 0x45, 0x42]);
    run(&mut m, 2);
    assert_eq!(m.state.pc, 0x206);
    run(&mut m, 1);
    assert_eq!(m.state.pc, 0x208);
}

#[test]
fn store_then_load_round_trip() {
    for mode in [Mode::Chip8, Mode::SuperChip] {
        let mut m = machine(mode, &[0xF7, 0x55]);
        for r in 0..16 {
            m.state.registers[r] = (r as u8) * 3 + 1;
        }
        m.state.i = 0x500;
        run(&mut m, 1);
        for r in 0..8 {
            assert_eq!(m.state.memory[0x500 + r], (r as u8) * 3 + 1);
        }
        assert_eq!(m.state.memory[0x508], 0);
        let expected_i = if mode == Mode::Chip8 { 0x508 } else { 0x500 };
        assert_eq!(m.state.i, expected_i);
        let saved = m.state.registers;
        m.state.registers = [0; 16];
        m.state.i = 0x500;
        let load = Instruction::IFX65 { x: 7 };
        let (mut hires, mut running) = (false, true);
        load.execute(&mut m.state, &mut m.display, &[false; 16], &mut hires, &mut running, 0);
        assert_eq!(&m.state.registers[0..8], &saved[0..8]);
        assert_eq!(&m.state.registers[8..16], &[0; 8]);
        assert_eq!(m.state.i, expected_i);
    }
}

#[test]
fn flag_written_after_result() {
    let mut m = machine(Mode::Chip8, &[0x6F, 0xF0, 0x61, 0x20, 0x8F, 0x14]);
    run(&mut m, 3);
    assert_eq!(m.state.registers[0xF], 1);

    let mut m = machine(Mode::Chip8, &[0x6F, 0x10, 0x61, 0x20, 0x8F, 0x15]);
    run(&mut m, 3);
    assert_eq!(m.state.registers[0xF], 0);

    let mut m = machine(Mode::SuperChip, &[0x6F, 0x81, 0x8F, 0x06]);
    run(&mut m, 2);
    assert_eq!(m.state.registers[0xF], 1);

    let mut m = machine(Mode::SuperChip, &[0x6F, 0x81, 0x8F, 0x0E]);
    run(&mut m, 2);
    assert_eq!(m.state.registers[0xF], 1);
}

#[test]
fn draw_twice_reports_collision_and_erases() {
    let mut m = machine(Mode::Chip8, &[0x60, 0x00, 0xF0, 0x29, 0xD0, 0x05, 0xD0, 0x05]);
    run(&mut m, 3);
    assert_eq!(m.state.registers[0xF], 0);
    run(&mut m, 1);
    assert_eq!(m.state.registers[0xF], 1);
    assert!(m.display.plane_1.iter().all(|p| !*p));
}

#[test]
fn program_counter_even_through_a_program() {
    let rom = [0x60, 0x01, 0x22, 0x08, 0xF0, 0x00, 0x12, 0x34, 0x70, 0x01, 0x00, 0xEE];
    let mut m = machine(Mode::XoChip, &rom);
    for _ in 0..12 {
        m.step(0);
        assert_eq!(m.state.pc % 2, 0);
    }
}

#[test]
fn rom_too_large_is_refused() {
    let big = vec![0u8; 0x10000 - 0x200 + 1];
    let mut m = Chip8::new(Mode::Chip8);
    assert_eq!(m.load_cartridge(&big), Err(RomError::RomTooLarge));
    assert!(m.state.memory.iter().all(|b| *b == 0));
    assert!(Chip8::get_new_and_start(&big, Mode::Chip8).is_err());
    let fits = vec![0xAAu8; 0x10000 - 0x200];
    assert_eq!(m.load_cartridge(&fits), Ok(()));
    assert_eq!(m.state.memory[0xFFFF], 0xAA);
    assert_eq!(m.state.memory[0x1FF], 0);
}

#[test]
fn fonts_loaded_at_their_addresses() {
    let m = Chip8::get_new_and_start(&[0x12, 0x00], Mode::Chip8).ok().unwrap();
    assert_eq!(&m.state.memory[0x50..0x55], &[0xF0, 0x90, 0x90, 0x90, 0xF0]);
    assert_eq!(&m.state.memory[0x9B..0xA0], &[0xF0, 0x80, 0xF0, 0x80, 0x80]);
    assert_eq!(m.state.memory[0xA0], 0x3C);
    assert_eq!(&m.state.memory[0x200..0x202], &[0x12, 0x00]);
}

#[test]
fn unknown_word_is_skipped() {
    let mut m = machine(Mode::Chip8, &[0x5A, 0xB1, 0x60, 0x09]);
    run(&mut m, 2);
    assert_eq!(m.state.registers[0], 9);
    assert_eq!(m.state.pc, 0x204);
}

#[test]
fn return_with_empty_stack_changes_nothing() {
    let mut m = machine(Mode::Chip8, &[0x00, 0xEE]);
    run(&mut m, 1);
    assert_eq!(m.state.pc, 0x202);
    assert!(m.state.stack.is_empty());
}

#[test]
fn call_and_return() {
    let mut m = machine(Mode::Chip8, &[0x22, 0x06, 0x00, 0x00, 0x00, 0x00, 0x00, 0xEE]);
    run(&mut m, 1);
    assert_eq!(m.state.pc, 0x206);
    assert_eq!(m.state.stack, vec![0x202]);
    run(&mut m, 1);
    assert_eq!(m.state.pc, 0x202);
    assert!(m.state.stack.is_empty());
}

#[test]
fn halt_clears_running_flag() {
    let mut m = machine(Mode::Chip8, &[0x00, 0xFD]);
    run(&mut m, 1);
    assert!(!m.running);
    let mut m = machine(Mode::Chip8, &[0x00, 0x00]);
    run(&mut m, 1);
    assert!(!m.running);
}

#[test]
fn jump_with_offset_follows_dialect() {
    let mut m = machine(Mode::Chip8, &[0x60, 0x02, 0x63, 0x10, 0xB3, 0x00]);
    run(&mut m, 3);
    assert_eq!(m.state.pc, 0x302);
    let mut m = machine(Mode::SuperChip, &[0x60, 0x02, 0x63, 0x10, 0xB3, 0x00]);
    run(&mut m, 3);
    assert_eq!(m.state.pc, 0x310);
}

#[test]
fn random_byte_is_masked() {
    let mut cpu = CpuState::default();
    let mut d = chip8_core::display::Display::new();
    let (mut hires, mut running) = (false, true);
    Instruction::ICXNN { x: 2, nn: 0x0F }.execute(&mut cpu, &mut d, &[false; 16], &mut hires, &mut running, 0xAB);
    assert_eq!(cpu.registers[2], 0x0B);
}

#[test]
fn add_to_index_sets_flag_only_when_asked() {
    let mut cpu = CpuState::default();
    let mut d = chip8_core::display::Display::new();
    let (mut hires, mut running) = (false, true);
    cpu.i = 0xFFFF;
    cpu.registers[1] = 2;
    cpu.registers[0xF] = 9;
    Instruction::IFX1E { x: 1 }.execute(&mut cpu, &mut d, &[false; 16], &mut hires, &mut running, 0);
    assert_eq!(cpu.i, 1);
    assert_eq!(cpu.registers[0xF], 9);
    cpu.quirks.add_i_sets_vf = true;
    cpu.i = 0xFFFF;
    Instruction::IFX1E { x: 1 }.execute(&mut cpu, &mut d, &[false; 16], &mut hires, &mut running, 0);
    assert_eq!(cpu.registers[0xF], 1);
}

#[test]
fn range_store_and_load_descending() {
    let mut cpu = CpuState::default();
    let mut d = chip8_core::display::Display::new();
    let (mut hires, mut running) = (false, true);
    cpu.registers[3] = 30;
    cpu.registers[4] = 40;
    cpu.registers[5] = 50;
    cpu.i = 0x600;
    Instruction::I5XY2 { x: 5, y: 3 }.execute(&mut cpu, &mut d, &[false; 16], &mut hires, &mut running, 0);
    assert_eq!(&cpu.memory[0x600..0x603], &[50, 40, 30]);
    assert_eq!(cpu.i, 0x600);
    cpu.memory[0x600] = 1;
    cpu.memory[0x601] = 2;
    cpu.memory[0x602] = 3;
    Instruction::I5XY3 { x: 3, y: 5 }.execute(&mut cpu, &mut d, &[false; 16], &mut hires, &mut running, 0);
    assert_eq!(&cpu.registers[3..6], &[1, 2, 3]);
}

#[test]
fn rpl_flags_round_trip() {
    let mut cpu = CpuState::default();
    let mut d = chip8_core::display::Display::new();
    let (mut hires, mut running) = (false, true);
    for r in 0..16 {
        cpu.registers[r] = r as u8 + 100;
    }
    Instruction::IFX75 { x: 15 }.execute(&mut cpu, &mut d, &[false; 16], &mut hires, &mut running, 0);
    assert_eq!(cpu.rpl_flags, [100, 101, 102, 103, 104, 105, 106, 107]);
    cpu.registers = [0; 16];
    Instruction::IFX85 { x: 3 }.execute(&mut cpu, &mut d, &[false; 16], &mut hires, &mut running, 0);
    assert_eq!(&cpu.registers[0..5], &[100, 101, 102, 103, 0]);
}

#[test]
fn audio_pattern_and_pitch() {
    let mut m = machine(Mode::XoChip, &[0xA3, 0x00, 0xF0, 0x02, 0x60, 0x70, 0xF0, 0x3A, 0xF0, 0x18]);
    for k in 0..16 {
        m.state.memory[0x300 + k] = k as u8 * 2;
    }
    run(&mut m, 5);
    let a = m.snapshot_audio();
    assert_eq!(a.sound_pattern_buffer[15], 30);
    assert_eq!(a.pitch_register, 0x70);
    assert_eq!(a.sound_timer, 0x70);
    assert_eq!(a.mode, Mode::XoChip);
}

#[test]
fn timers_count_down_to_zero() {
    let mut m = Chip8::new(Mode::Chip8);
    m.state.delay_timer = 2;
    m.state.sound_timer = 1;
    m.timer_tick();
    assert_eq!((m.state.delay_timer, m.state.sound_timer), (1, 0));
    m.timer_tick();
    m.timer_tick();
    assert_eq!((m.state.delay_timer, m.state.sound_timer), (0, 0));
}

fn exec(cpu: &mut CpuState, ins: Instruction) {
    let mut d = chip8_core::display::Display::new();
    let (mut hires, mut running) = (false, true);
    ins.execute(cpu, &mut d, &[false; 16], &mut hires, &mut running, 0);
}

#[test]
fn big_font_address() {
    let mut cpu = CpuState::default();
    cpu.registers[2] = 0x17;
    exec(&mut cpu, Instruction::IFX30 { x: 2 });
    assert_eq!(cpu.i, 0xA0 + 7 * 10);
    exec(&mut cpu, Instruction::IFX29 { x: 2 });
    assert_eq!(cpu.i, 0x50 + 7 * 5);
}

#[test]
fn subtract_and_shift_results() {
    let mut cpu = CpuState::default();
    cpu.registers[1] = 10;
    cpu.registers[2] = 3;
    exec(&mut cpu, Instruction::I8XY7 { x: 2, y: 1 });
    assert_eq!((cpu.registers[2], cpu.registers[0xF]), (7, 1));
    exec(&mut cpu, Instruction::I8XY5 { x: 2, y: 1 });
    assert_eq!((cpu.registers[2], cpu.registers[0xF]), (253, 0));
    cpu.registers[3] = 0b1000_0011;
    exec(&mut cpu, Instruction::I8XYE { x: 4, y: 3 });
    assert_eq!((cpu.registers[4], cpu.registers[0xF]), (0b0000_0110, 1));
    exec(&mut cpu, Instruction::I8XY6 { x: 4, y: 3 });
    assert_eq!((cpu.registers[4], cpu.registers[0xF]), (0b0100_0001, 1));
}

#[test]
fn add_immediate_wraps_without_flag() {
    let mut cpu = CpuState::default();
    cpu.registers[5] = 250;
    cpu.registers[0xF] = 3;
    exec(&mut cpu, Instruction::I7XNN { x: 5, nn: 10 });
    assert_eq!(cpu.registers[5], 4);
    assert_eq!(cpu.registers[0xF], 3);
}

#[test]
fn delay_timer_round_trip() {
    let mut cpu = CpuState::default();
    cpu.registers[6] = 42;
    exec(&mut cpu, Instruction::IFX15 { x: 6 });
    exec(&mut cpu, Instruction::IFX07 { x: 7 });
    assert_eq!(cpu.delay_timer, 42);
    assert_eq!(cpu.registers[7], 42);
}

#[test]
fn resolution_and_plane_select() {
    let mut m = machine(Mode::XoChip, &[0x00, 0xFF, 0xF2, 0x01, 0x00, 0xFE]);
    run(&mut m, 2);
    assert!(m.hires_mode);
    assert_eq!(m.display.selected_plane, 2);
    run(&mut m, 1);
    assert!(!m.hires_mode);
}

use chip8_core::chip_8::Chip8;
use chip8_core::cpu_state::{CpuState, Mode, Quirks};
use chip8_core::display::{draw_on_plane, scroll_plane, Display, ScrollDirection, SpritePlacement};
use chip8_core::instruction::{DecodedInstruction, Instruction};
use chip8_core::keypad::KeyPad;

fn count_on(plane: &[bool; 8192]) -> usize {
    plane.iter().filter(|p| **p).count()
}

#[test]
fn scroll_right_then_left_loses_right_border() {
    let mut plane = [false; 8192];
    for y in 0..64 {
        plane[y * 128] = true;
        plane[y * 128 + 127] = true;
        plane[y * 128 + 60] = true;
    }
    scroll_plane(&mut plane, ScrollDirection::Right, 4);
    assert!(plane[4] && plane[64] && !plane[0] && !plane[127]);
    scroll_plane(&mut plane, ScrollDirection::Left, 4);
    for y in 0..64 {
        assert!(plane[y * 128]);
        assert!(plane[y * 128 + 60]);
        assert!(!plane[y * 128 + 127]);
    }
    assert_eq!(count_on(&plane), 128);
}

#[test]
fn scroll_up_and_down_clear_vacated_rows() {
    let mut plane = [false; 8192];
    plane[10 * 128 + 5] = true;
    plane[63 * 128] = true;
    scroll_plane(&mut plane, ScrollDirection::Up, 3);
    assert!(plane[7 * 128 + 5]);
    assert!(plane[60 * 128]);
    assert_eq!(count_on(&plane), 2);
    scroll_plane(&mut plane, ScrollDirection::Down, 61);
    assert!(!plane[60 * 128]);
    assert_eq!(count_on(&plane), 0);
    plane[0] = true;
    scroll_plane(&mut plane, ScrollDirection::Down, 100);
    assert_eq!(count_on(&plane), 0);
}

#[test]
fn scroll_touches_only_selected_planes() {
    let mut d = Display::new();
    d.plane_1[0] = true;
    d.plane_2[0] = true;
    d.select_plane(2);
    d.execute_scroll(ScrollDirection::Right, 8);
    assert!(d.plane_1[0]);
    assert!(!d.plane_2[0] && d.plane_2[8]);
    d.select_plane(0);
    d.clear_selected();
    assert!(d.plane_1[0] && d.plane_2[8]);
    d.select_plane(3);
    d.clear_selected();
    assert_eq!(count_on(&d.plane_1) + count_on(&d.plane_2), 0);
}

#[test]
fn lores_scroll_is_doubled() {
    let mut m = Chip8::new(Mode::XoChip);
    m.start(&[0x00, 0xFB, 0x00, 0xFF, 0x00, 0xFC, 0x00, 0xC2]).unwrap();
    m.display.plane_1[0] = true;
    m.step(0);
    assert!(m.display.plane_1[8]);
    m.step(0);
    assert!(m.hires_mode);
    m.step(0);
    assert!(m.display.plane_1[4]);
    m.step(0);
    assert!(m.display.plane_1[2 * 128 + 4]);
}

#[test]
fn selected_planes_by_mask() {
    let mut d = Display::new();
    assert_eq!(d.get_selected_planes(), vec![1]);
    d.select_plane(2);
    assert_eq!(d.get_selected_planes(), vec![2]);
    d.select_plane(3);
    assert_eq!(d.get_selected_planes(), vec![1, 2]);
    d.select_plane(0);
    assert_eq!(d.get_selected_planes(), Vec::<u8>::new());
    d.select_plane(7);
    assert_eq!(d.get_selected_planes(), Vec::<u8>::new());
}

#[test]
fn two_plane_draw_reads_consecutive_data() {
    let mut m = Chip8::new(Mode::XoChip);
    // plane mask 3, I = 0x300, V0 = V1 = 0, draw one row.
    m.start(&[0xF3, 0x01, 0xA3, 0x00, 0xD0, 0x11]).unwrap();
    m.state.memory[0x300] = 0x80;
    m.state.memory[0x301] = 0x01;
    m.step(0);
    m.step(0);
    m.step(0);
    assert!(m.display.plane_1[0] && m.display.plane_1[1]);
    assert_eq!(count_on(&m.display.plane_1), 4);
    assert!(m.display.plane_2[14] && m.display.plane_2[15]);
    assert_eq!(count_on(&m.display.plane_2), 4);
}

#[test]
fn wide_sprite_in_hires() {
    let mut plane = [false; 8192];
    let mut mem = [0u8; 65536];
    mem[0x400] = 0xC0;
    mem[0x401] = 0x01;
    let s = SpritePlacement { x0: 120, y0: 0, rows: 16, wide: true, scale: 1, wrap: false };
    let hit = draw_on_plane(&mut plane, &mem, 0x400, s);
    assert!(!hit);
    assert!(plane[120] && plane[121]);
    assert_eq!(count_on(&plane), 2);
    let s = SpritePlacement { wrap: true, ..s };
    let mut plane2 = [false; 8192];
    draw_on_plane(&mut plane2, &mem, 0x400, s);
    assert!(plane2[120] && plane2[121] && plane2[7]);
    assert_eq!(count_on(&plane2), 3);
}

#[test]
fn decode_splits_fields() {
    let d = DecodedInstruction::from_word(0xD123);
    assert_eq!((d.opcode, d.x, d.y, d.n, d.nn, d.nnn), (0xD, 1, 2, 3, 0x23, 0x123));
    assert_eq!(CpuState::decode(0xD123), Some(Instruction::IDXYN { x: 1, y: 2, n: 3 }));
    assert_eq!(CpuState::decode(0xD120), Some(Instruction::IDXY0 { x: 1, y: 2 }));
    assert_eq!(CpuState::decode(0x00E0), Some(Instruction::I00E0));
    assert_eq!(CpuState::decode(0x0000), Some(Instruction::I0000));
    assert_eq!(CpuState::decode(0xF201), Some(Instruction::IFN01 { n: 2 }));
    assert_eq!(CpuState::decode(0xF000), Some(Instruction::IF000));
    assert_eq!(CpuState::decode(0x5AB1), None);
    assert_eq!(CpuState::decode(0x8AB8), None);
    assert_eq!(CpuState::decode(0xE1FF), None);
}

#[test]
fn fetch_does_not_move_and_skip_handles_long_word() {
    let mut cpu = CpuState::default();
    cpu.memory[0x200] = 0x12;
    cpu.memory[0x201] = 0x34;
    assert_eq!(cpu.fetch(), 0x1234);
    assert_eq!(cpu.pc, 0x200);
    assert_eq!(cpu.get_current_instruction(false), Some(Instruction::I1NNN { nnn: 0x234 }));
    assert_eq!(cpu.pc, 0x200);
    assert_eq!(cpu.get_current_instruction(true), Some(Instruction::I1NNN { nnn: 0x234 }));
    assert_eq!(cpu.pc, 0x202);
    cpu.memory[0x202] = 0xF0;
    cpu.skip_instruction();
    assert_eq!(cpu.pc, 0x206);
    cpu.pc = 0xFFFE;
    cpu.skip_instruction();
    assert_eq!(cpu.pc, 0x0000);
}

#[test]
fn quirk_profiles() {
    let q = Quirks::for_mode(Mode::Chip8);
    assert!(q.logic_clears_vf && q.load_store_increments_i && !q.shift_uses_x_only && !q.jump_uses_vx);
    assert!(!q.add_i_sets_vf && !q.allow_scroll_in_lowres);
    let q = Quirks::for_mode(Mode::SuperChip);
    assert!(!q.logic_clears_vf && !q.load_store_increments_i && q.shift_uses_x_only && q.jump_uses_vx);
    assert!(!q.allow_scroll_in_lowres);
    let q = Quirks::for_mode(Mode::XoChip);
    assert!(!q.logic_clears_vf && q.load_store_increments_i && !q.shift_uses_x_only && q.allow_scroll_in_lowres);
    let q = Quirks::for_mode(Mode::Experimental);
    assert!(!q.load_store_increments_i && q.allow_scroll_in_lowres && !q.jump_uses_vx);
}

#[test]
fn mode_switch_keeps_memory_and_sets_rate() {
    let mut m = Chip8::new(Mode::Chip8);
    assert_eq!(m.ipf, 100);
    m.state.memory[0x300] = 9;
    m.state.registers[2] = 4;
    m.display.plane_1[5] = true;
    m.set_compatibility_mode(&Mode::XoChip);
    assert_eq!(m.ipf, 1000);
    assert_eq!(m.compatibility_mode, Mode::XoChip);
    assert!(m.state.quirks.allow_scroll_in_lowres);
    assert_eq!(m.state.memory[0x300], 9);
    assert_eq!(m.state.registers[2], 4);
    assert!(m.display.plane_1[5]);
    m.set_compatibility_mode(&Mode::SuperChip);
    assert_eq!(m.ipf, 500);
    m.set_compatibility_mode(&Mode::Experimental);
    assert_eq!(m.ipf, 500);
}

#[test]
fn new_machine_state() {
    let m = Chip8::new(Mode::SuperChip);
    assert_eq!(m.state.pc, 0x200);
    assert_eq!(m.state.pitch_register, 64);
    assert!(m.running && !m.hires_mode);
    assert_eq!(m.fps_ns, 16_666_667);
    assert_eq!(m.display.selected_plane, 1);
    assert_eq!(m.keys, [false; 16]);
}

#[test]
fn pause_and_resume_restore_rate() {
    let mut m = Chip8::new(Mode::Chip8);
    m.set_ipf(7);
    m.pause();
    assert_eq!(m.ipf, 0);
    let pc = m.state.pc;
    m.cpu_tick();
    assert_eq!(m.state.pc, pc);
    m.resume();
    assert_eq!(m.ipf, 7);
    m.cpu_tick();
    assert_eq!(m.state.pc, pc + 14);
}

#[test]
fn frame_rate_knob() {
    let mut m = Chip8::new(Mode::Chip8);
    assert!(m.set_fps(30));
    assert_eq!(m.fps_ns, 33_333_333);
    assert!(!m.set_fps(0));
    assert_eq!(m.fps_ns, 33_333_333);
}

#[test]
fn stop_clears_running() {
    let mut m = Chip8::new(Mode::Chip8);
    m.display.plane_1[3] = true;
    m.display.plane_2[4] = true;
    m.state.registers[1] = 6;
    m.stop();
    assert!(!m.running);
    let frame = m.snapshot_display();
    assert!(frame.plane_1.iter().chain(frame.plane_2.iter()).all(|p| !*p));
    assert_eq!(m.state.registers[1], 6);
}

#[test]
fn key_input_and_clear() {
    let mut m = Chip8::new(Mode::Chip8);
    m.handle_input(KeyPad::A, true);
    m.handle_input(KeyPad::Num3, true);
    assert!(m.keys[10] && m.keys[3]);
    m.handle_input(KeyPad::A, false);
    assert!(!m.keys[10] && m.keys[3]);
    m.clear_keys();
    assert_eq!(m.keys, [false; 16]);
}

#[test]
fn key_skips_follow_keypad() {
    let mut m = Chip8::new(Mode::Chip8);
    m.start(&[0x61, 0x1C, 0xE1, 0x9E, 0x00, 0x00, 0xE1, 0xA1]).unwrap();
    m.handle_input(KeyPad::C, true);
    m.step(0);
    m.step(0);
    assert_eq!(m.state.pc, 0x206);
    m.step(0);
    assert_eq!(m.state.pc, 0x208);
}

#[test]
fn keypad_labels() {
    let all = KeyPad::all();
    for (i, k) in all.iter().enumerate() {
        assert_eq!(k.index(), i);
        assert_eq!(KeyPad::from_index(i), Some(*k));
    }
    assert_eq!(KeyPad::from_index(16), None);
    assert_eq!(KeyPad::A.to_chip8_str(), "A");
    assert_eq!(KeyPad::Num0.to_chip8_str(), "0");
    assert_eq!(KeyPad::Num0.to_keyboard_str(), "X");
    assert_eq!(KeyPad::C.to_keyboard_str(), "4");
    assert_eq!(KeyPad::Num4.to_keyboard_str(), "Q");
    assert_eq!(KeyPad::F.to_keyboard_str(), "V");
}

#[test]
fn machine_fetch_and_decode() {
    let mut m = Chip8::new(Mode::Chip8);
    m.start(&[0x8A, 0xB4]).unwrap();
    assert_eq!(m.fetch(), 0x8AB4);
    let d = Chip8::decode(m.fetch());
    assert_eq!((d.opcode, d.x, d.y, d.n), (8, 0xA, 0xB, 4));
    assert_eq!(d.to_instruction(), Some(Instruction::I8XY4 { x: 0xA, y: 0xB }));
}

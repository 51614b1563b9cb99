use skylark::cpu::CpuError;
use skylark::display::DisplayFrame;
use skylark::instruction::{decode, Instruction};
use skylark::keyboard::Keyboard;
use skylark::timer::Timer;
use skylark::Emulator;

fn boot(program: &[u8]) -> Emulator {
    let mut emu = Emulator::new();
    emu.load_rom(program.to_vec());
    emu
}

fn lit(frame: &DisplayFrame, x: usize, y: usize) -> bool {
    frame.pixels()[x + y * 64]
}

#[test]
fn full_row_sprite_lights_and_unlights() {
    let mut frame = DisplayFrame::new();
    assert!(!frame.draw(0, 0, &[0xFF]));
    for x in 0..8 {
        assert!(lit(&frame, x, 0));
    }
    assert!(!lit(&frame, 8, 0));
    assert_eq!(frame.pixels().iter().filter(|p| **p).count(), 8);
    assert!(frame.draw(0, 0, &[0xFF]));
    assert!(frame.pixels().iter().all(|p| !*p));
}

#[test]
fn draw_instruction_sets_collision_flag() {
    let mut emu = boot(&[0xA2, 0x08, 0xD0, 0x01, 0xD0, 0x01, 0x00, 0x00, 0xFF]);
    emu.tick().unwrap();
    emu.tick().unwrap();
    assert_eq!(emu.cpu().register(0xF), 0);
    assert!(emu.pixels()[..8].iter().all(|p| *p));
    emu.tick().unwrap();
    assert_eq!(emu.cpu().register(0xF), 1);
    assert!(emu.pixels().iter().all(|p| !*p));
}

#[test]
fn draw_twice_restores_frame() {
    let mut frame = DisplayFrame::new();
    frame.draw(10, 5, &[0x3C, 0x81]);
    let before: Vec<bool> = frame.pixels().to_vec();
    frame.draw(12, 6, &[0xF0, 0x0F, 0xAA]);
    frame.draw(12, 6, &[0xF0, 0x0F, 0xAA]);
    assert_eq!(frame.pixels().to_vec(), before);
}

#[test]
fn collision_only_on_lit_cells_turned_off() {
    let mut frame = DisplayFrame::new();
    frame.draw(0, 0, &[0xF0]);
    assert!(!frame.draw(4, 0, &[0xF0]));
    assert!(frame.draw(3, 0, &[0x80]));
}

#[test]
fn sprite_at_last_column_wraps_to_first() {
    let mut frame = DisplayFrame::new();
    frame.draw(63, 3, &[0xC0]);
    assert!(lit(&frame, 63, 3));
    assert!(lit(&frame, 0, 3));
    assert!(!lit(&frame, 1, 3));
}

#[test]
fn sprite_at_last_row_wraps_to_first() {
    let mut frame = DisplayFrame::new();
    frame.draw(2, 31, &[0x80, 0x80]);
    assert!(lit(&frame, 2, 31));
    assert!(lit(&frame, 2, 0));
}

#[test]
fn coordinates_wrap_modulo_the_grid() {
    let mut frame = DisplayFrame::new();
    frame.draw(64 + 5, 32 + 2, &[0x80]);
    assert!(lit(&frame, 5, 2));
}

#[test]
fn clear_turns_every_cell_off() {
    let mut frame = DisplayFrame::new();
    frame.draw(7, 7, &[0xFF, 0xFF]);
    frame.clear();
    assert!(frame.pixels().iter().all(|p| !*p));
    assert_eq!(frame.pixels().len(), 64 * 32);
}

#[test]
fn clear_instruction_blanks_the_screen() {
    let mut emu = boot(&[0xF0, 0x29, 0xD0, 0x05, 0x00, 0xE0]);
    emu.tick().unwrap();
    emu.tick().unwrap();
    assert!(emu.pixels().iter().any(|p| *p));
    emu.tick().unwrap();
    assert!(emu.pixels().iter().all(|p| !*p));
}

#[test]
fn text_shows_one_line_per_row() {
    let mut frame = DisplayFrame::new();
    frame.draw(0, 0, &[0x80]);
    let text = frame.to_text();
    let lines: Vec<&str> = text.lines().collect();
    assert_eq!(lines.len(), 32);
    assert!(lines.iter().all(|l| l.chars().count() == 64));
    assert_eq!(lines[0].chars().next(), Some('\u{25FC}'));
    assert_eq!(lines[0].chars().nth(1), Some('\u{25FB}'));
    assert!(text.ends_with('\n'));
}

#[test]
fn display_out_renders_the_frame() {
    let emu = boot(&[]);
    let text = emu.display_out();
    assert_eq!(text.chars().count(), 32 * 65);
    assert!(text.chars().all(|c| c == '\u{25FB}' || c == '\n'));
    assert_eq!(emu.width(), 64);
    assert_eq!(emu.height(), 32);
}

#[test]
fn key_wait_blocks_until_a_key_is_pressed() {
    let mut emu = boot(&[0xF3, 0x0A, 0x00, 0x00]);
    for _ in 0..5 {
        emu.tick().unwrap();
        assert_eq!(emu.cpu().pc(), 0x200);
    }
    emu.key_change(0x9, true);
    emu.key_change(0x5, true);
    emu.tick().unwrap();
    assert_eq!(emu.cpu().register(3), 5);
    assert_eq!(emu.cpu().pc(), 0x202);
}

#[test]
fn key_skips_follow_the_keypad() {
    let mut emu = boot(&[0x60, 0x04, 0xE0, 0x9E, 0x00, 0x00, 0xE0, 0xA1]);
    emu.key_change(4, true);
    emu.tick().unwrap();
    emu.tick().unwrap();
    assert_eq!(emu.cpu().pc(), 0x206);
    emu.tick().unwrap();
    assert_eq!(emu.cpu().pc(), 0x208);
}

#[test]
fn key_register_out_of_range_fails() {
    let mut emu = boot(&[0x60, 0x10, 0xE0, 0x9E]);
    emu.tick().unwrap();
    assert_eq!(emu.tick(), Err(CpuError::KeyOutOfRange));
    assert_eq!(emu.cpu().pc(), 0x202);
}

#[test]
fn keyboard_reports_lowest_pressed_key() {
    let mut keys = Keyboard::new();
    assert_eq!(keys.current_key(), None);
    keys.key_change(12, true);
    keys.key_change(3, true);
    assert_eq!(keys.current_key(), Some(3));
    assert!(keys.is_pressed(12));
    keys.key_change(3, false);
    assert!(!keys.is_pressed(3));
    assert_eq!(keys.current_key(), Some(12));
}

#[test]
fn timer_counts_down_to_zero() {
    let mut timer = Timer::new();
    assert_eq!(timer.get(), 0);
    timer.decrement();
    assert_eq!(timer.get(), 0);
    timer.set(2);
    timer.decrement();
    assert_eq!(timer.get(), 1);
    timer.decrement();
    timer.decrement();
    assert_eq!(timer.get(), 0);
}

#[test]
fn frame_decrements_timer_and_runs_ten_instructions() {
    let mut emu = boot(&[
        0x60, 0x05, 0xF0, 0x15, 0x70, 0x01, 0x70, 0x01, 0x70, 0x01, 0x70, 0x01, 0x70, 0x01, 0x70,
        0x01, 0x70, 0x01, 0x70, 0x01, 0x70, 0x01,
    ]);
    emu.tick_frame().unwrap();
    assert_eq!(emu.cpu().pc(), 0x200 + 20);
    assert_eq!(emu.delay_timer(), 5);
    assert_eq!(emu.cpu().register(0), 5 + 8);
    emu.tick_frame().unwrap_err();
    assert_eq!(emu.delay_timer(), 4);
}

#[test]
fn frame_stops_at_the_first_error() {
    let mut emu = boot(&[0x60, 0x01, 0x00, 0xEE, 0x60, 0x02]);
    assert_eq!(emu.tick_frame(), Err(CpuError::StackUnderflow));
    assert_eq!(emu.cpu().pc(), 0x202);
    assert_eq!(emu.cpu().register(0), 1);
}

#[test]
fn load_rom_installs_font_and_program() {
    let emu = boot(&[0xAB, 0xCD]);
    assert_eq!(emu.memory(0), 0xF0);
    assert_eq!(emu.memory(5), 0x20);
    assert_eq!(emu.memory(79), 0x80);
    assert_eq!(emu.memory(80), 0);
    assert_eq!(emu.memory(0x200), 0xAB);
    assert_eq!(emu.memory(0x201), 0xCD);
    assert_eq!(emu.memory(0x202), 0);
}

#[test]
fn decode_splits_nibbles() {
    assert_eq!(decode(0x00E0), Some(Instruction::Clear));
    assert_eq!(decode(0x8AB4), Some(Instruction::AddReg { x: 0xA, y: 0xB }));
    assert_eq!(decode(0xD125), Some(Instruction::Draw { x: 1, y: 2, n: 5 }));
    assert_eq!(decode(0x2ABC), Some(Instruction::Call { nnn: 0xABC }));
    assert_eq!(decode(0x5121), None);
    assert_eq!(decode(0xE1A2), None);
}

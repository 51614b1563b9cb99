use skylark::cpu::CpuError;
use skylark::Emulator;

fn boot(program: &[u8]) -> Emulator {
    let mut emu = Emulator::new();
    emu.load_rom(program.to_vec());
    emu
}

fn run_ticks(emu: &mut Emulator, n: usize) {
    for _ in 0..n {
        emu.tick().expect("instruction failed");
    }
}

fn reg(emu: &Emulator, x: usize) -> u8 {
    emu.cpu().register(x)
}

#[test]
fn add_small_values_has_no_carry() {
    let mut emu = boot(&[0x60, 0x05, 0x61, 0x03, 0x80, 0x14]);
    run_ticks(&mut emu, 3);
    assert_eq!(reg(&emu, 0), 8);
    assert_eq!(reg(&emu, 0xF), 0);
    assert_eq!(emu.cpu().pc(), 0x206);
}

#[test]
fn add_overflow_sets_carry() {
    let mut emu = boot(&[0x60, 0xFF, 0x61, 0x01, 0x80, 0x14]);
    run_ticks(&mut emu, 3);
    assert_eq!(reg(&emu, 0), 0);
    assert_eq!(reg(&emu, 0xF), 1);
}

#[test]
fn add_into_vf_leaves_the_flag() {
    let mut emu = boot(&[0x6F, 0xFF, 0x61, 0x02, 0x8F, 0x14]);
    run_ticks(&mut emu, 3);
    assert_eq!(reg(&emu, 0xF), 1);
}

#[test]
fn sub_without_borrow_sets_flag() {
    let mut emu = boot(&[0x60, 0x07, 0x61, 0x03, 0x80, 0x15]);
    run_ticks(&mut emu, 3);
    assert_eq!(reg(&emu, 0), 4);
    assert_eq!(reg(&emu, 0xF), 1);
}

#[test]
fn sub_equal_values_sets_flag() {
    let mut emu = boot(&[0x60, 0x09, 0x61, 0x09, 0x80, 0x15]);
    run_ticks(&mut emu, 3);
    assert_eq!(reg(&emu, 0), 0);
    assert_eq!(reg(&emu, 0xF), 1);
}

#[test]
fn sub_with_borrow_clears_flag() {
    let mut emu = boot(&[0x60, 0x03, 0x61, 0x07, 0x80, 0x15]);
    run_ticks(&mut emu, 3);
    assert_eq!(reg(&emu, 0), 0xFC);
    assert_eq!(reg(&emu, 0xF), 0);
}

#[test]
fn reverse_sub_both_directions() {
    let mut emu = boot(&[0x60, 0x03, 0x61, 0x07, 0x80, 0x17]);
    run_ticks(&mut emu, 3);
    assert_eq!(reg(&emu, 0), 4);
    assert_eq!(reg(&emu, 0xF), 1);

    let mut emu = boot(&[0x60, 0x07, 0x61, 0x03, 0x80, 0x17]);
    run_ticks(&mut emu, 3);
    assert_eq!(reg(&emu, 0), 0xFC);
    assert_eq!(reg(&emu, 0xF), 0);
}

#[test]
fn shift_right_keeps_low_bit_in_vf() {
    let mut emu = boot(&[0x60, 0x05, 0x80, 0x06]);
    run_ticks(&mut emu, 2);
    assert_eq!(reg(&emu, 0), 2);
    assert_eq!(reg(&emu, 0xF), 1);

    let mut emu = boot(&[0x60, 0x04, 0x80, 0x06]);
    run_ticks(&mut emu, 2);
    assert_eq!(reg(&emu, 0), 2);
    assert_eq!(reg(&emu, 0xF), 0);
}

#[test]
fn shift_left_keeps_high_bit_in_vf() {
    let mut emu = boot(&[0x60, 0x81, 0x80, 0x0E]);
    run_ticks(&mut emu, 2);
    assert_eq!(reg(&emu, 0), 0x02);
    assert_eq!(reg(&emu, 0xF), 1);

    let mut emu = boot(&[0x60, 0x41, 0x80, 0x0E]);
    run_ticks(&mut emu, 2);
    assert_eq!(reg(&emu, 0), 0x82);
    assert_eq!(reg(&emu, 0xF), 0);
}

#[test]
fn shift_of_vf_leaves_the_lost_bit() {
    let mut emu = boot(&[0x6F, 0x03, 0x8F, 0x06]);
    run_ticks(&mut emu, 2);
    assert_eq!(reg(&emu, 0xF), 1);
}

#[test]
fn add_immediate_wraps_at_256() {
    let mut emu = boot(&[0x60, 0xFF, 0x70, 0x01, 0x62, 0x0F, 0x72, 0xF0]);
    run_ticks(&mut emu, 4);
    assert_eq!(reg(&emu, 0), 0);
    assert_eq!(reg(&emu, 2), 0xFF);
    assert_eq!(reg(&emu, 0xF), 0);
}

#[test]
fn bitwise_register_ops() {
    let mut emu = boot(&[
        0x60, 0x0C, 0x61, 0x0A, 0x82, 0x00, 0x82, 0x11, 0x83, 0x00, 0x83, 0x12, 0x84, 0x00,
        0x84, 0x13,
    ]);
    run_ticks(&mut emu, 8);
    assert_eq!(reg(&emu, 2), 0x0A | 0x0C);
    assert_eq!(reg(&emu, 3), 0x0C & 0x0A);
    assert_eq!(reg(&emu, 4), 0x0C ^ 0x0A);
}

#[test]
fn call_then_return_resumes_after_call() {
    let mut emu = boot(&[0x22, 0x06, 0x00, 0x00, 0x00, 0x00, 0x00, 0xEE]);
    emu.tick().unwrap();
    assert_eq!(emu.cpu().pc(), 0x206);
    assert_eq!(emu.cpu().stack_depth(), 1);
    emu.tick().unwrap();
    assert_eq!(emu.cpu().pc(), 0x202);
    assert_eq!(emu.cpu().stack_depth(), 0);
}

#[test]
fn return_with_empty_stack_fails() {
    let mut emu = boot(&[0x00, 0xEE]);
    assert_eq!(emu.tick(), Err(CpuError::StackUnderflow));
    assert_eq!(emu.cpu().pc(), 0x200);
}

#[test]
fn calls_deeper_than_the_stack_fail() {
    let mut emu = boot(&[0x22, 0x00]);
    for _ in 0..16 {
        emu.tick().unwrap();
    }
    assert_eq!(emu.cpu().stack_depth(), 16);
    assert_eq!(emu.tick(), Err(CpuError::StackOverflow));
    assert_eq!(emu.cpu().stack_depth(), 16);
}

#[test]
fn unknown_opcodes_are_reported() {
    let mut emu = boot(&[0x01, 0x23]);
    assert_eq!(emu.tick(), Err(CpuError::UnsupportedOpcode(0x0123)));
    let mut emu = boot(&[0xFF, 0xFF]);
    assert_eq!(emu.tick(), Err(CpuError::UnsupportedOpcode(0xFFFF)));
    let mut emu = boot(&[0x80, 0x18]);
    assert_eq!(emu.tick(), Err(CpuError::UnsupportedOpcode(0x8018)));
}

#[test]
fn fetch_past_memory_fails() {
    let mut emu = boot(&[0x1F, 0xFF]);
    emu.tick().unwrap();
    assert_eq!(emu.cpu().pc(), 0xFFF);
    assert_eq!(emu.tick(), Err(CpuError::AddressOutOfRange));
}

#[test]
fn skips_jump_two_instructions() {
    let mut emu = boot(&[0x60, 0x05, 0x30, 0x05]);
    run_ticks(&mut emu, 2);
    assert_eq!(emu.cpu().pc(), 0x206);

    let mut emu = boot(&[0x60, 0x05, 0x40, 0x05]);
    run_ticks(&mut emu, 2);
    assert_eq!(emu.cpu().pc(), 0x204);

    let mut emu = boot(&[0x60, 0x05, 0x61, 0x05, 0x50, 0x10, 0x00, 0x00, 0x90, 0x10]);
    run_ticks(&mut emu, 3);
    assert_eq!(emu.cpu().pc(), 0x208);
    run_ticks(&mut emu, 1);
    assert_eq!(emu.cpu().pc(), 0x20A);
}

#[test]
fn jumps_set_the_program_counter() {
    let mut emu = boot(&[0x13, 0x45]);
    emu.tick().unwrap();
    assert_eq!(emu.cpu().pc(), 0x345);

    let mut emu = boot(&[0x60, 0x04, 0xB3, 0x00]);
    run_ticks(&mut emu, 2);
    assert_eq!(emu.cpu().pc(), 0x304);
}

#[test]
fn index_register_ops() {
    let mut emu = boot(&[0xA1, 0x23, 0x60, 0x10, 0xF0, 0x1E]);
    run_ticks(&mut emu, 3);
    assert_eq!(emu.cpu().index(), 0x133);

    let mut emu = boot(&[0x60, 0x0A, 0xF0, 0x29]);
    run_ticks(&mut emu, 2);
    assert_eq!(emu.cpu().index(), 50);
}

#[test]
fn bcd_stores_decimal_digits() {
    let mut emu = boot(&[0x60, 0xFE, 0xA3, 0x00, 0xF0, 0x33]);
    run_ticks(&mut emu, 3);
    assert_eq!(emu.memory(0x300), 2);
    assert_eq!(emu.memory(0x301), 5);
    assert_eq!(emu.memory(0x302), 4);
}

#[test]
fn register_dump_and_load_round_trip() {
    let mut emu = boot(&[
        0x60, 0x11, 0x61, 0x22, 0x62, 0x33, 0xA3, 0x00, 0xF2, 0x55, 0x60, 0x00, 0x61, 0x00,
        0x62, 0x00, 0xF1, 0x65,
    ]);
    run_ticks(&mut emu, 9);
    assert_eq!(emu.memory(0x300), 0x11);
    assert_eq!(emu.memory(0x301), 0x22);
    assert_eq!(emu.memory(0x302), 0x33);
    assert_eq!(emu.memory(0x303), 0);
    assert_eq!(reg(&emu, 0), 0x11);
    assert_eq!(reg(&emu, 1), 0x22);
    assert_eq!(reg(&emu, 2), 0);
}

#[test]
fn register_dump_past_memory_fails() {
    let mut emu = boot(&[0xAF, 0xFF, 0xF1, 0x55]);
    emu.tick().unwrap();
    assert_eq!(emu.tick(), Err(CpuError::AddressOutOfRange));
    assert_eq!(emu.cpu().pc(), 0x202);
}

#[test]
fn bcd_past_memory_fails() {
    let mut emu = boot(&[0xAF, 0xFE, 0xF0, 0x33]);
    emu.tick().unwrap();
    assert_eq!(emu.tick(), Err(CpuError::AddressOutOfRange));
}

#[test]
fn random_is_masked_by_the_immediate() {
    let mut emu = boot(&[0xC0, 0x00, 0xC1, 0x0F]);
    emu.tick().unwrap();
    assert_eq!(reg(&emu, 0), 0);
    emu.tick().unwrap();
    assert!(reg(&emu, 1) <= 0x0F);

    let mut emu = boot(&[0xC0, 0x0F]);
    emu.step(0xAB).unwrap();
    assert_eq!(reg(&emu, 0), 0x0B);
}

#[test]
fn timer_instructions_read_and_write_the_timer() {
    let mut emu = boot(&[0x60, 0x2A, 0xF0, 0x15, 0xF1, 0x07]);
    run_ticks(&mut emu, 3);
    assert_eq!(emu.delay_timer(), 0x2A);
    assert_eq!(reg(&emu, 1), 0x2A);
}

#[test]
fn sound_instruction_only_advances() {
    let mut emu = boot(&[0x60, 0x05, 0xF0, 0x18]);
    run_ticks(&mut emu, 2);
    assert_eq!(emu.cpu().pc(), 0x204);
    assert_eq!(reg(&emu, 0), 5);
}

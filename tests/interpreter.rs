use xchip::{Fault, Interpreter, Mode, Outcome};

const NO_KEYS: [bool; 16] = [false; 16];
const ONE_SIXTIETH_NS: u64 = 16_666_667;

fn machine(program: &[u8]) -> Interpreter {
    let mut it = Interpreter::new();
    assert_eq!(it.insert_rom("program.ch8", program, Some(Mode::Chip8)), Ok(()));
    it
}

fn run(it: &mut Interpreter, n: usize) {
    for _ in 0..n {
        assert_eq!(it.run_next_with(0, &NO_KEYS, 0), Ok(Outcome::Handled));
    }
}

#[test]
fn load_then_skip_if_equal() {
    let mut it = machine(&[0x61, 0x05, 0x31, 0x05]);
    assert_eq!(it.context().pc, 0x200);
    assert_eq!(it.run_next_with(0, &NO_KEYS, 0), Ok(Outcome::Handled));
    assert_eq!(it.context().pc, 0x202);
    assert_eq!(it.context().v[1], 5);
    assert_eq!(it.run_next_with(0, &NO_KEYS, 0), Ok(Outcome::Handled));
    assert_eq!(it.context().pc, 0x206);
}

#[test]
fn clear_screen_blanks_a_lit_display() {
    // I := glyph 0, draw it at (V0, V0), then clear.
    let mut it = machine(&[0xA0, 0x00, 0xD0, 0x05, 0x00, 0xE0]);
    run(&mut it, 2);
    assert!(it.context().screen.iter().any(|d| *d));
    let v = it.context().v;
    let i = it.context().i;
    run(&mut it, 1);
    assert!(it.context().screen.iter().all(|d| !d));
    assert_eq!(it.context().v, v);
    assert_eq!(it.context().i, i);
    assert_eq!(it.context().pc, 0x206);
}

#[test]
fn delay_timer_counts_down_once_per_sixtieth() {
    // V3 := 3; DT := V3; loop forever.
    let mut it = machine(&[0x63, 0x03, 0xF3, 0x15, 0x12, 0x04]);
    assert_eq!(it.run_frame_with(0, &NO_KEYS, &[0; 8]), Ok(vec![]));
    assert_eq!(it.context().dt, 3);
    let mut seen = Vec::new();
    for _ in 0..4 {
        assert_eq!(it.run_frame_with(ONE_SIXTIETH_NS, &NO_KEYS, &[0; 8]), Ok(vec![]));
        seen.push(it.context().dt);
    }
    assert_eq!(seen, vec![2, 1, 0, 0]);
}

#[test]
fn timers_keep_the_remainder() {
    let mut it = machine(&[0x63, 0x05, 0xF3, 0x15, 0xF3, 0x18, 0x12, 0x06]);
    run(&mut it, 3);
    it.tick_timers(16_666_665);
    assert_eq!(it.context().dt, 5);
    it.tick_timers(1);
    assert_eq!(it.context().dt, 4);
    assert_eq!(it.context().st, 4);
    it.tick_timers(8_000_000);
    it.tick_timers(8_666_666);
    assert_eq!(it.context().dt, 3);
}

#[test]
fn add_sets_carry_on_overflow() {
    let mut it = machine(&[0x60, 0xFF, 0x61, 0x02, 0x80, 0x14]);
    run(&mut it, 3);
    assert_eq!(it.context().v[0], 0x01);
    assert_eq!(it.context().v[15], 1);
}

#[test]
fn add_clears_carry_without_overflow() {
    let mut it = machine(&[0x6F, 0x01, 0x60, 0x10, 0x61, 0x20, 0x80, 0x14]);
    run(&mut it, 4);
    assert_eq!(it.context().v[0], 0x30);
    assert_eq!(it.context().v[15], 0);
}

#[test]
fn add_into_flag_register_keeps_the_carry() {
    let mut it = machine(&[0x6F, 0xFF, 0x61, 0x02, 0x8F, 0x14]);
    run(&mut it, 3);
    assert_eq!(it.context().v[15], 1);
}

#[test]
fn sub_flag_means_no_borrow() {
    let mut it = machine(&[0x60, 0x05, 0x61, 0x03, 0x80, 0x15]);
    run(&mut it, 3);
    assert_eq!(it.context().v[0], 2);
    assert_eq!(it.context().v[15], 1);

    let mut it = machine(&[0x60, 0x03, 0x61, 0x05, 0x80, 0x15]);
    run(&mut it, 3);
    assert_eq!(it.context().v[0], 0xFE);
    assert_eq!(it.context().v[15], 0);

    let mut it = machine(&[0x60, 0x05, 0x61, 0x05, 0x80, 0x15]);
    run(&mut it, 3);
    assert_eq!(it.context().v[0], 0);
    assert_eq!(it.context().v[15], 1);
}

#[test]
fn subn_subtracts_the_other_way() {
    let mut it = machine(&[0x60, 0x03, 0x61, 0x05, 0x80, 0x17]);
    run(&mut it, 3);
    assert_eq!(it.context().v[0], 2);
    assert_eq!(it.context().v[15], 1);

    let mut it = machine(&[0x60, 0x05, 0x61, 0x03, 0x80, 0x17]);
    run(&mut it, 3);
    assert_eq!(it.context().v[0], 0xFE);
    assert_eq!(it.context().v[15], 0);
}

#[test]
fn shifts_flag_the_bit_that_leaves() {
    let mut it = machine(&[0x60, 0x81, 0x80, 0x06]);
    run(&mut it, 2);
    assert_eq!(it.context().v[0], 0x40);
    assert_eq!(it.context().v[15], 1);

    let mut it = machine(&[0x60, 0x81, 0x80, 0x0E]);
    run(&mut it, 2);
    assert_eq!(it.context().v[0], 0x02);
    assert_eq!(it.context().v[15], 1);

    let mut it = machine(&[0x60, 0x40, 0x80, 0x0E]);
    run(&mut it, 2);
    assert_eq!(it.context().v[0], 0x80);
    assert_eq!(it.context().v[15], 0);

    let mut it = machine(&[0x60, 0x02, 0x80, 0x06]);
    run(&mut it, 2);
    assert_eq!(it.context().v[0], 0x01);
    assert_eq!(it.context().v[15], 0);
}

#[test]
fn bitwise_operations() {
    let mut it = machine(&[0x60, 0x0C, 0x61, 0x0A, 0x62, 0x0C, 0x63, 0x0C, 0x80, 0x11, 0x82, 0x12, 0x83, 0x13]);
    run(&mut it, 7);
    assert_eq!(it.context().v[0], 0x0E);
    assert_eq!(it.context().v[2], 0x08);
    assert_eq!(it.context().v[3], 0x06);
}

#[test]
fn drawing_twice_restores_the_display() {
    let mut it = machine(&[0xA0, 0x00, 0x60, 0x3E, 0x61, 0x1E, 0xD0, 0x15, 0xD0, 0x15]);
    run(&mut it, 4);
    let lit = it.context().screen.iter().filter(|d| **d).count();
    assert_eq!(lit, 14);
    assert_eq!(it.context().v[15], 0);
    run(&mut it, 1);
    assert!(it.context().screen.iter().all(|d| !d));
    assert_eq!(it.context().v[15], 1);
}

#[test]
fn sprites_wrap_round_the_display() {
    // Glyph 0 at (62, 30): its first row F0 covers columns 62, 63, 0, 1.
    let mut it = machine(&[0xA0, 0x00, 0x60, 0x3E, 0x61, 0x1E, 0xD0, 0x11]);
    run(&mut it, 4);
    let s = &it.context().screen;
    assert!(s[30 * 64 + 62]);
    assert!(s[30 * 64 + 63]);
    assert!(s[30 * 64]);
    assert!(s[30 * 64 + 1]);
    assert!(!s[30 * 64 + 2]);
    assert_eq!(s.iter().filter(|d| **d).count(), 4);
}

#[test]
fn jump_indexed_wraps_into_memory() {
    let mut it = machine(&[0x60, 0x02, 0xBF, 0xFF]);
    run(&mut it, 2);
    assert_eq!(it.context().pc, 0x001);
}

#[test]
fn jump_and_call_and_return() {
    let mut it = machine(&[0x22, 0x06, 0x60, 0x07, 0x12, 0x04, 0x61, 0x09, 0x00, 0xEE]);
    run(&mut it, 1);
    assert_eq!(it.context().pc, 0x206);
    assert_eq!(it.context().sp, 1);
    run(&mut it, 2);
    assert_eq!(it.context().v[1], 9);
    assert_eq!(it.context().pc, 0x202);
    assert_eq!(it.context().sp, 0);
    run(&mut it, 2);
    assert_eq!(it.context().v[0], 7);
    assert_eq!(it.context().pc, 0x204);
}

#[test]
fn store_then_load_registers_round_trip() {
    let mut it = machine(&[
        0x60, 0x11, 0x61, 0x22, 0x62, 0x33, 0xA3, 0x00, 0xF2, 0x55, // store V0..V2 at 0x300
        0x60, 0x00, 0x61, 0x00, 0x62, 0x00, 0xA3, 0x00, 0xF2, 0x65, // clear, load them back
    ]);
    run(&mut it, 5);
    assert_eq!(it.context().i, 0x303);
    run(&mut it, 5);
    assert_eq!(&it.context().v[0..3], &[0x11, 0x22, 0x33]);
    assert_eq!(it.context().i, 0x303);
}

#[test]
fn bcd_writes_decimal_digits() {
    let mut it = machine(&[0x60, 0xFE, 0xA3, 0x00, 0xF0, 0x33, 0xA3, 0x00, 0xF2, 0x65]);
    run(&mut it, 5);
    assert_eq!(&it.context().v[0..3], &[2, 5, 4]);
}

#[test]
fn font_glyph_address() {
    let mut it = machine(&[0x60, 0x0A, 0xF0, 0x29]);
    run(&mut it, 2);
    assert_eq!(it.context().i, 50);
}

#[test]
fn add_to_index_flags_overflow() {
    let mut it = machine(&[0xAF, 0xFF, 0x60, 0x02, 0xF0, 0x1E]);
    run(&mut it, 3);
    assert_eq!(it.context().i, 0x001);
    assert_eq!(it.context().v[15], 1);

    let mut it = machine(&[0xA1, 0x00, 0x60, 0x02, 0xF0, 0x1E]);
    run(&mut it, 3);
    assert_eq!(it.context().i, 0x102);
    assert_eq!(it.context().v[15], 0);
}

#[test]
fn timer_registers_transfer() {
    let mut it = machine(&[0x60, 0x2A, 0xF0, 0x15, 0xF0, 0x18, 0xF1, 0x07]);
    run(&mut it, 4);
    assert_eq!(it.context().dt, 0x2A);
    assert_eq!(it.context().st, 0x2A);
    assert_eq!(it.context().v[1], 0x2A);
}

#[test]
fn key_skips_follow_the_keypad() {
    let mut keys = [false; 16];
    keys[5] = true;
    let mut it = machine(&[0x60, 0x05, 0xE0, 0x9E]);
    run(&mut it, 1);
    assert_eq!(it.run_next_with(0, &keys, 0), Ok(Outcome::Handled));
    assert_eq!(it.context().pc, 0x206);

    let mut it = machine(&[0x60, 0x05, 0xE0, 0xA1]);
    run(&mut it, 1);
    assert_eq!(it.run_next_with(0, &keys, 0), Ok(Outcome::Handled));
    assert_eq!(it.context().pc, 0x204);

    let mut it = machine(&[0x60, 0x05, 0xE0, 0xA1]);
    run(&mut it, 2);
    assert_eq!(it.context().pc, 0x206);
}

#[test]
fn keys_beyond_the_keypad_are_never_down() {
    let keys = [true; 16];
    let mut it = machine(&[0x60, 0x20, 0xE0, 0x9E]);
    run(&mut it, 1);
    assert_eq!(it.run_next_with(0, &keys, 0), Ok(Outcome::Handled));
    assert_eq!(it.context().pc, 0x204);
}

#[test]
fn random_byte_is_masked() {
    let mut it = machine(&[0xC0, 0x0F, 0xC1, 0x00]);
    assert_eq!(it.run_next_with(0, &NO_KEYS, 0xAB), Ok(Outcome::Handled));
    assert_eq!(it.context().v[0], 0x0B);
    assert_eq!(it.run_next(0, &NO_KEYS), Ok(Outcome::Handled));
    assert_eq!(it.context().v[1], 0);
}

#[test]
fn unknown_instruction_is_a_fault() {
    let mut it = machine(&[0x60, 0x01, 0xE0, 0x00]);
    run(&mut it, 1);
    assert_eq!(it.run_next_with(0, &NO_KEYS, 0), Err(Fault::UnknownOpcode(0xE000)));
    assert_eq!(it.context().pc, 0x204);
    assert_eq!(it.context().v[0], 1);
}

#[test]
fn frame_stops_at_a_fault() {
    let mut it = machine(&[0x60, 0x01, 0x61, 0x02, 0xF0, 0xFF, 0x62, 0x03]);
    assert_eq!(it.run_frame(0, &NO_KEYS), Err(Fault::UnknownOpcode(0xF0FF)));
    assert_eq!(it.context().v[0], 1);
    assert_eq!(it.context().v[1], 2);
    assert_eq!(it.context().v[2], 0);
    assert_eq!(it.context().pc, 0x206);
}

#[test]
fn frame_runs_eight_instructions() {
    let mut it = machine(&[0x70, 0x01, 0x12, 0x00]);
    assert_eq!(it.run_frame(0, &NO_KEYS), Ok(vec![]));
    assert_eq!(it.context().v[0], 4);
}

#[test]
fn no_program_no_run() {
    let mut it = Interpreter::new();
    assert_eq!(it.run_next(0, &NO_KEYS), Err(Fault::NoProgram));
    assert_eq!(it.run_frame(0, &NO_KEYS), Err(Fault::NoProgram));
    let mut it = machine(&[0x12, 0x00]);
    it.remove_rom();
    assert_eq!(it.run_next_with(0, &NO_KEYS, 0), Err(Fault::NoProgram));
}

#[test]
fn oversized_rom_is_refused() {
    let mut it = Interpreter::new();
    let rom = vec![0x12u8; 0x1000 - 0x200 + 1];
    assert_eq!(it.insert_rom("big.ch8", &rom, Some(Mode::Chip8)), Err(Fault::RomTooLarge));
    assert_eq!(it.run_next(0, &NO_KEYS), Err(Fault::NoProgram));
    let rom = vec![0x12u8; 0x1000 - 0x200];
    assert_eq!(it.insert_rom("big.ch8", &rom, Some(Mode::Chip8)), Ok(()));
    let rom = vec![0x12u8; 0x1000 - 0x300 + 1];
    assert_eq!(it.insert_rom("big.c8x", &rom, None), Err(Fault::RomTooLarge));
}

#[test]
fn reset_restarts_the_program() {
    let mut it = machine(&[0x60, 0x09, 0x12, 0x02]);
    run(&mut it, 2);
    assert_eq!(it.context().v[0], 9);
    it.reset();
    assert_eq!(it.context().v[0], 0);
    assert_eq!(it.context().pc, 0x200);
    run(&mut it, 1);
    assert_eq!(it.context().v[0], 9);
}

#[test]
fn font_is_in_memory_after_loading() {
    // I := glyph F, load its five bytes into V0..V4.
    let mut it = machine(&[0x60, 0x0F, 0xF0, 0x29, 0xF4, 0x65]);
    run(&mut it, 3);
    assert_eq!(&it.context().v[0..5], &[0xF0, 0x80, 0xF0, 0x80, 0x80]);
}

#[test]
fn framebuffer_is_one_byte_per_dot() {
    let mut it = machine(&[0xA0, 0x00, 0xD0, 0x05]);
    run(&mut it, 2);
    let (fb, w, h) = it.screen_as_framebuffer();
    assert_eq!((w, h), (64, 32));
    assert_eq!(fb.len(), 64 * 32);
    assert_eq!(&fb[0..5], &[0xFF, 0xFF, 0xFF, 0xFF, 0x00]);
    assert_eq!(&fb[64..69], &[0xFF, 0x00, 0x00, 0xFF, 0x00]);
}

#[test]
fn mode_from_file_extension() {
    assert_eq!(Mode::from_file("games/maze.ch10"), Mode::Chip10);
    assert_eq!(Mode::from_file("roms/pong.c8x"), Mode::Chip8x);
    assert_eq!(Mode::from_file("roms/pong.ch8"), Mode::XoChip);
    assert_eq!(Mode::from_file("pong"), Mode::XoChip);
    assert_eq!(Mode::from_file(".c8x"), Mode::XoChip);
    assert_eq!(Mode::from_extension("c8x"), Mode::Chip8x);
    assert_eq!(Mode::from_extension("ch10"), Mode::Chip10);
    assert_eq!(Mode::from_extension("C8X"), Mode::XoChip);
    assert_eq!(Mode::from_extension(""), Mode::XoChip);
}

#[test]
fn long_gaps_count_down_once_per_call() {
    let mut it = machine(&[0x63, 0x05, 0xF3, 0x15, 0x12, 0x04]);
    run(&mut it, 2);
    it.tick_timers(u64::MAX);
    assert_eq!(it.context().dt, 4);
    it.tick_timers(u64::MAX);
    assert_eq!(it.context().dt, 3);
    it.tick_timers(0);
    assert_eq!(it.context().dt, 2);
}

#[test]
fn empty_program_faults_on_zero_word() {
    let mut it = machine(&[]);
    assert_eq!(it.run_next_with(0, &NO_KEYS, 0), Err(Fault::UnknownOpcode(0x0000)));
}

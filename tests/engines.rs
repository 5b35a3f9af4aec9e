use xchip::{Chip8, Context, Interpreter, Mmu, Mode, Opcode, Outcome, Runtime, SuperChip};

const NO_KEYS: [bool; 16] = [false; 16];

fn machine(program: &[u8], mode: Mode) -> Interpreter {
    let mut it = Interpreter::new();
    assert_eq!(it.insert_rom("program", program, Some(mode)), Ok(()));
    it
}

#[test]
fn chip8_engine_executes_directly() {
    let e = Chip8::new();
    let mut c = Context::new();
    let mut m = Mmu::new();
    assert!(e.execute(&mut c, &mut m, &NO_KEYS, 0, Opcode::from_word(0x6A42)));
    assert_eq!(c.v[10], 0x42);
    assert!(e.execute(&mut c, &mut m, &NO_KEYS, 0, Opcode::from_word(0x7AFF)));
    assert_eq!(c.v[10], 0x41);
    assert!(!e.execute(&mut c, &mut m, &NO_KEYS, 0, Opcode::from_word(0x8AB9)));
    assert_eq!(c.v[10], 0x41);
    assert!(!e.execute(&mut c, &mut m, &NO_KEYS, 0, Opcode::from_word(0x0123)));
}

#[test]
fn super_chip_uses_the_large_display() {
    let it = machine(&[0x12, 0x00], Mode::SuperChip);
    assert_eq!(it.context().screen_width, 128);
    assert_eq!(it.context().screen_height, 64);
    assert_eq!(it.context().screen.len(), 128 * 64);
}

#[test]
fn super_chip_draws_only_in_extended_mode() {
    let mut it = machine(&[0xA0, 0x00, 0xD0, 0x05, 0x00, 0xFE, 0xD0, 0x05, 0xD0, 0x00], Mode::SuperChip);
    assert_eq!(it.run_next_with(0, &NO_KEYS, 0), Ok(Outcome::Handled));
    assert_eq!(it.run_next_with(0, &NO_KEYS, 0), Ok(Outcome::Unsupported));
    assert!(it.context().screen.iter().all(|d| !d));
    assert_eq!(it.run_next_with(0, &NO_KEYS, 0), Ok(Outcome::Handled));
    assert_eq!(it.run_next_with(0, &NO_KEYS, 0), Ok(Outcome::Handled));
    assert!(it.context().screen[0]);
    assert!(it.context().screen[128]);
    assert_eq!(it.run_next_with(0, &NO_KEYS, 0), Ok(Outcome::Unsupported));
}

#[test]
fn super_chip_reports_scrolling_as_unsupported() {
    let mut it = machine(&[0x00, 0xC1, 0x00, 0xFB, 0x00, 0xFC, 0xF0, 0x30, 0x12, 0x08], Mode::SuperChip);
    assert_eq!(it.run_frame_with(0, &NO_KEYS, &[0; 8]), Ok(vec![0x00C1, 0x00FB, 0x00FC, 0xF030]));
}

#[test]
fn super_chip_saves_and_restores_registers() {
    let mut it = machine(
        &[0x60, 0x11, 0x61, 0x22, 0x62, 0x33, 0xF1, 0x75, 0x60, 0x00, 0x61, 0x00, 0x62, 0x00, 0xF2, 0x85],
        Mode::SuperChip,
    );
    for _ in 0..8 {
        assert_eq!(it.run_next_with(0, &NO_KEYS, 0), Ok(Outcome::Handled));
    }
    assert_eq!(&it.context().v[0..3], &[0x11, 0x22, 0x00]);
}

#[test]
fn super_chip_scratch_holds_eight_registers() {
    let mut it = machine(
        &[0x67, 0x77, 0x68, 0x88, 0xFF, 0x75, 0x67, 0x00, 0x68, 0x00, 0xFF, 0x85],
        Mode::SuperChip,
    );
    for _ in 0..6 {
        assert_eq!(it.run_next_with(0, &NO_KEYS, 0), Ok(Outcome::Handled));
    }
    assert_eq!(it.context().v[7], 0x77);
    assert_eq!(it.context().v[8], 0x00);
}

#[test]
fn super_chip_engine_executes_directly() {
    let mut e = SuperChip::new();
    let mut c = Context::new();
    let mut m = Mmu::new();
    e.configure(&mut c);
    assert_eq!(e.execute(&mut c, &mut m, &NO_KEYS, 0, Opcode::from_word(0x6305)), Outcome::Handled);
    assert_eq!(c.v[3], 5);
    assert_eq!(e.execute(&mut c, &mut m, &NO_KEYS, 0, Opcode::from_word(0x00FB)), Outcome::Unsupported);
    assert_eq!(e.execute(&mut c, &mut m, &NO_KEYS, 0, Opcode::from_word(0xE300)), Outcome::Unknown);
}

#[test]
fn chip8x_starts_at_its_own_address() {
    let mut it = machine(&[0x60, 0x07, 0x13, 0x02], Mode::Chip8x);
    assert_eq!(it.context().pc, 0x300);
    assert_eq!(it.run_next_with(0, &NO_KEYS, 0), Ok(Outcome::Handled));
    assert_eq!(it.context().v[0], 7);
    assert_eq!(it.context().pc, 0x302);
}

#[test]
fn chip8x_colour_instructions_are_unsupported() {
    let mut it = machine(&[0xB0, 0x10, 0x02, 0xA0, 0x50, 0x11, 0xB0, 0x13], Mode::Chip8x);
    for _ in 0..4 {
        assert_eq!(it.run_next_with(0, &NO_KEYS, 0), Ok(Outcome::Unsupported));
    }
    assert_eq!(it.context().pc, 0x308);
}

#[test]
fn chip8x_framebuffer_uses_lens_and_background() {
    let mut it = machine(&[0xA0, 0x00, 0xD0, 0x05], Mode::Chip8x);
    for _ in 0..2 {
        assert_eq!(it.run_next_with(0, &NO_KEYS, 0), Ok(Outcome::Handled));
    }
    let (fb, w, h) = it.screen_as_framebuffer();
    assert_eq!((w, h), (64, 32));
    assert_eq!(&fb[0..5], &[0b111_111_11, 0b111_111_11, 0b111_111_11, 0b111_111_11, 0b000_000_00]);
}

#[test]
fn runtime_for_each_mode() {
    assert_eq!(Runtime::for_mode(Mode::Chip8x).start(), 0x300);
    assert_eq!(Runtime::for_mode(Mode::Chip8).start(), 0x200);
    assert_eq!(Runtime::for_mode(Mode::SuperChip).start(), 0x200);
    assert_eq!(Runtime::for_mode(Mode::XoChip).start(), 0x200);
}

#[test]
fn mode_follows_the_file_name_when_not_given() {
    let mut it = Interpreter::new();
    assert_eq!(it.insert_rom("games/blinky.c8x", &[0x13, 0x00], None), Ok(()));
    assert_eq!(it.context().pc, 0x300);
    assert_eq!(it.run_next_with(0, &NO_KEYS, 0), Ok(Outcome::Handled));
    assert_eq!(it.context().pc, 0x300);
    let mut it = Interpreter::new();
    assert_eq!(it.insert_rom("games/blinky.c8x", &[0x12, 0x00], Some(Mode::Chip8)), Ok(()));
    assert_eq!(it.context().pc, 0x200);
}

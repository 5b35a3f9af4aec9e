use xchip::{Context, Mmu, Opcode, MEMORY_SIZE};

#[test]
fn fresh_memory_reads_zero() {
    let mut m = Mmu::new();
    assert_eq!(m.read(0), 0);
    assert_eq!(m.read(0x123), 0);
    assert_eq!(m.read(MEMORY_SIZE - 1), 0);
}

#[test]
fn write_then_read_back() {
    let mut m = Mmu::default();
    m.write(0x300, 0xAB);
    assert_eq!(m.read(0x300), 0xAB);
    assert_eq!(m.read(0x2FF), 0);
    assert_eq!(m.read(0x301), 0);
}

#[test]
fn addresses_wrap_round_the_address_space() {
    let mut m = Mmu::new();
    m.write(MEMORY_SIZE + 5, 7);
    assert_eq!(m.read(5), 7);
    assert_eq!(m.read(2 * MEMORY_SIZE + 5), 7);
}

#[test]
fn write_all_copies_in_order() {
    let mut m = Mmu::new();
    m.write_all(0x200, &[1, 2, 3]);
    assert_eq!(m.read(0x1FF), 0);
    assert_eq!(m.read(0x200), 1);
    assert_eq!(m.read(0x201), 2);
    assert_eq!(m.read(0x202), 3);
    assert_eq!(m.read(0x203), 0);
}

#[test]
fn write_all_up_to_the_last_byte() {
    let mut m = Mmu::new();
    m.write_all(MEMORY_SIZE - 2, &[9, 8]);
    assert_eq!(m.read(MEMORY_SIZE - 2), 9);
    assert_eq!(m.read(MEMORY_SIZE - 1), 8);
}

#[test]
fn clear_zeroes_everything() {
    let mut m = Mmu::new();
    m.write(0x10, 1);
    m.write(0x800, 2);
    m.clear();
    assert_eq!(m.read(0x10), 0);
    assert_eq!(m.read(0x800), 0);
}

#[test]
fn opcode_nibbles_and_immediates() {
    let op = Opcode::new(0xD1, 0x2F);
    assert_eq!(op.unwrap(), (0xD, 0x1, 0x2, 0xF));
    assert_eq!(op.extract_u12(), 0x12F);
    assert_eq!(op.extract_u8(), 0x2F);
    assert_eq!(op.word(), 0xD12F);
    assert_eq!(Opcode::from_word(0xABCD).unwrap(), (0xA, 0xB, 0xC, 0xD));
}

#[test]
fn read_next_fetches_big_endian_and_advances() {
    let mut m = Mmu::new();
    m.write_all(0x200, &[0x61, 0x05, 0x31, 0x05]);
    let mut pc: usize = 0x200;
    let op = Opcode::read_next(&mut pc, &mut m);
    assert_eq!(op.word(), 0x6105);
    assert_eq!(pc, 0x202);
    let op = Opcode::read_next(&mut pc, &mut m);
    assert_eq!(op.word(), 0x3105);
    assert_eq!(pc, 0x204);
}

#[test]
fn read_next_wraps_at_the_end_of_memory() {
    let mut m = Mmu::new();
    m.write(MEMORY_SIZE - 1, 0x12);
    m.write(0, 0x34);
    let mut pc: usize = MEMORY_SIZE - 1;
    let op = Opcode::read_next(&mut pc, &mut m);
    assert_eq!(op.word(), 0x1234);
    assert_eq!(pc, 1);
}

#[test]
fn stack_push_then_pop() {
    let mut c = Context::new();
    let mut m = Mmu::new();
    c.stack_push(&mut m, 0x0234);
    assert_eq!(c.sp, 1);
    assert_eq!(m.read(0x102), 0x02);
    assert_eq!(m.read(0x103), 0x34);
    c.stack_push(&mut m, 0x0456);
    assert_eq!(c.stack_pop(&mut m), 0x0456);
    assert_eq!(c.stack_pop(&mut m), 0x0234);
    assert_eq!(c.sp, 0);
}

#[test]
fn stack_pointer_wraps() {
    let mut c = Context::new();
    let mut m = Mmu::new();
    c.sp = 255;
    c.stack_push(&mut m, 0x0ABC);
    assert_eq!(c.sp, 0);
    assert_eq!(m.read(0x100), 0x0A);
    assert_eq!(m.read(0x101), 0xBC);
    assert_eq!(c.stack_pop(&mut m), 0x0ABC);
    assert_eq!(c.sp, 255);
}

#[test]
fn context_reset_clears_state() {
    let mut c = Context::new();
    c.v[3] = 9;
    c.i = 0x400;
    c.pc = 0x456;
    c.sp = 4;
    c.dt = 10;
    c.st = 11;
    c.screen[5] = true;
    c.framebuffer.push(1);
    c.reset();
    assert_eq!(c.v, [0u8; 16]);
    assert_eq!(c.i, 0);
    assert_eq!(c.pc, 0x200);
    assert_eq!(c.sp, 0);
    assert_eq!(c.dt, 0);
    assert_eq!(c.st, 0);
    assert!(c.screen.iter().all(|d| !d));
    assert_eq!(c.screen.len(), 64 * 32);
    assert!(c.framebuffer.is_empty());
}

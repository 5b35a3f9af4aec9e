use vstd::prelude::*;
use crate::mmu::{wrap, Mmu, MEMORY_SIZE};

verus! {

/// The high nibble of an instruction word: its operation class.
pub open spec fn nibble_a(w: u16) -> u8 {
    (w / 0x1000) as u8
}

/// The second nibble: usually the first register operand.
pub open spec fn nibble_b(w: u16) -> u8 {
    ((w / 0x100) % 0x10) as u8
}

/// The third nibble: usually the second register operand.
pub open spec fn nibble_c(w: u16) -> u8 {
    ((w / 0x10) % 0x10) as u8
}

/// The low nibble.
pub open spec fn nibble_d(w: u16) -> u8 {
    (w % 0x10) as u8
}

/// The low 12 bits: an address immediate.
pub open spec fn imm12(w: u16) -> u16 {
    (w % 0x1000) as u16
}

/// The low byte: a byte immediate.
pub open spec fn imm8(w: u16) -> u8 {
    (w % 0x100) as u8
}

/// The big-endian word made of two bytes.
pub open spec fn word_of(hi: u8, lo: u8) -> u16 {
    (hi as int * 0x100 + lo as int) as u16
}

/// One 16-bit instruction word, stored big-endian as two bytes.
#[derive(Clone, Copy)]
pub struct Opcode {
    hi: u8,
    lo: u8,
}

impl View for Opcode {
    type V = u16;

    closed spec fn view(&self) -> u16 {
        word_of(self.hi, self.lo)
    }
}

impl Opcode {
    /// The instruction made of the bytes `hi` then `lo`.
    pub fn new(hi: u8, lo: u8) -> (r: Opcode)
        ensures
            r@ == word_of(hi, lo),
    {
        Opcode { hi, lo }
    }

    /// The instruction with the given 16-bit value.
    pub fn from_word(w: u16) -> (r: Opcode)
        ensures
            r@ == w,
    {
        let r = Opcode { hi: (w >> 8) as u8, lo: (w & 0xFF) as u8 };
        assert(((w >> 8) as u8) as int * 0x100 + ((w & 0xFF) as u8) as int == w) by (bit_vector);
        r
    }

    /// The instruction as a 16-bit value.
    pub fn word(&self) -> (r: u16)
        ensures
            r == self@,
    {
        let hi = self.hi;
        let lo = self.lo;
        assert(((hi as u16) << 8 | lo as u16) as int == hi as int * 0x100 + lo as int) by (bit_vector);
        (self.hi as u16) << 8 | self.lo as u16
    }

    /// Fetches the instruction at `*pc` and advances `*pc` past it.
    pub fn read_next(pc: &mut usize, m: &mut Mmu) -> (r: Opcode)
        ensures
            r@ == word_of(old(m)@[wrap(*old(pc) as int)], old(m)@[wrap(*old(pc) + 1)]),
            *final(pc) == wrap(*old(pc) + 2),
            final(m)@ == old(m)@,
    {
        let a = *pc % MEMORY_SIZE;
        let r = Opcode { hi: m.read(a), lo: m.read(a + 1) };
        *pc = (a + 2) % MEMORY_SIZE;
        r
    }

    /// The four nibbles, high to low.
    pub fn unwrap(&self) -> (r: (u8, u8, u8, u8))
        ensures
            r == (nibble_a(self@), nibble_b(self@), nibble_c(self@), nibble_d(self@)),
    {
        let hi = self.hi;
        let lo = self.lo;
        assert(hi >> 4u8 == ((hi as int * 0x100 + lo as int) as u16 / 0x1000) as u8) by (bit_vector);
        assert(hi & 0xFu8 == (((hi as int * 0x100 + lo as int) as u16 / 0x100) % 0x10) as u8)
            by (bit_vector);
        assert(lo >> 4u8 == (((hi as int * 0x100 + lo as int) as u16 / 0x10) % 0x10) as u8)
            by (bit_vector);
        assert(lo & 0xFu8 == ((hi as int * 0x100 + lo as int) as u16 % 0x10) as u8) by (bit_vector);
        (hi >> 4, hi & 0xF, lo >> 4, lo & 0xF)
    }

    /// The low 12 bits.
    pub fn extract_u12(&self) -> (r: u16)
        ensures
            r == imm12(self@),
    {
        let hi = self.hi;
        let lo = self.lo;
        assert((lo as u16 | ((hi & 0xF) as u16) << 8u16) == ((hi as int * 0x100 + lo as int) as u16
            % 0x1000) as u16) by (bit_vector);
        (lo as u16) | (((hi & 0xF) as u16) << 8)
    }

    /// The low 8 bits.
    pub fn extract_u8(&self) -> (r: u8)
        ensures
            r == imm8(self@),
    {
        let hi = self.hi;
        let lo = self.lo;
        assert(lo == ((hi as int * 0x100 + lo as int) as u16 % 0x100) as u8) by (bit_vector);
        self.lo
    }
}

} // verus!

use vstd::prelude::*;
use crate::context::{
    Context, ContextView, stack_load, stack_store, sp_down, sp_up,
};
use crate::display::{draw_sprite, draw_view};
use crate::mmu::{wrap, Mmu, MEMORY_SIZE};
use crate::opcode::{imm12, imm8, nibble_a, nibble_b, nibble_c, nibble_d, Opcode};

verus! {

/// Bytes per glyph of the built-in hexadecimal font.
pub const GLYPH_BYTES: usize = 5;

/// Whether keypad key `k` is held down; values beyond the keypad never are.
pub open spec fn key_down(keys: Seq<bool>, k: u8) -> bool {
    k < 16 && keys[k as int]
}

/// `s` with register `x` set to `val`.
pub open spec fn with_reg(s: ContextView, x: int, val: u8) -> ContextView {
    ContextView { v: s.v.update(x, val), ..s }
}

/// `s` with the flag register set to `flag`, then register `x` to `val`.
pub open spec fn flag_then_reg(s: ContextView, x: int, flag: u8, val: u8) -> ContextView {
    ContextView { v: s.v.update(15, flag).update(x, val), ..s }
}

/// `s`, past the next instruction when `cond` holds.
pub open spec fn skip_if(s: ContextView, cond: bool) -> ContextView {
    if cond {
        ContextView { pc: wrap(s.pc + 2), ..s }
    } else {
        s
    }
}

/// The register-to-register arithmetic group (`8xyd`). The addition flags
/// a carry; the subtractions set the flag to 1 when no borrow occurs (the
/// minuend is at least the subtrahend); both shifts act on `Vx` and flag
/// the bit that leaves it. The flag register is written after the result
/// for the addition and before it for the others, so that with `x == 15`
/// the addition leaves the carry and the others leave their result.
pub open spec fn alu_view(s: ContextView, x: int, y: int, d: u8) -> Option<ContextView> {
    let vx = s.v[x];
    let vy = s.v[y];
    if d == 0x0 {
        Some(with_reg(s, x, vy))
    } else if d == 0x1 {
        Some(with_reg(s, x, vx | vy))
    } else if d == 0x2 {
        Some(with_reg(s, x, vx & vy))
    } else if d == 0x3 {
        Some(with_reg(s, x, vx ^ vy))
    } else if d == 0x4 {
        let sum = vx + vy;
        Some(with_reg(with_reg(s, x, (sum % 256) as u8), 15, if sum > 255 { 1u8 } else { 0u8 }))
    } else if d == 0x5 {
        Some(flag_then_reg(s, x, if vx >= vy { 1u8 } else { 0u8 }, ((vx - vy) % 256) as u8))
    } else if d == 0x6 {
        Some(flag_then_reg(s, x, vx % 2, vx / 2))
    } else if d == 0x7 {
        Some(flag_then_reg(s, x, if vy >= vx { 1u8 } else { 0u8 }, ((vy - vx) % 256) as u8))
    } else if d == 0xE {
        Some(flag_then_reg(s, x, vx / 128, ((vx * 2) % 256) as u8))
    } else {
        None
    }
}

/// Memory after writing registers `0..=x` at consecutive addresses from `i`.
pub open spec fn stored_regs(mem: Seq<u8>, i: int, v: Seq<u8>, x: int) -> Seq<u8> {
    Seq::new(mem.len(), |k: int| if wrap(k - i) <= x { v[wrap(k - i)] } else { mem[k] })
}

/// Registers after reading `0..=x` from consecutive addresses from `i`.
pub open spec fn loaded_regs(mem: Seq<u8>, i: int, v: Seq<u8>, x: int) -> Seq<u8> {
    Seq::new(v.len(), |r: int| if r <= x { mem[wrap(i + r)] } else { v[r] })
}

/// Memory after writing the decimal digits of `val` at `i`, hundreds first.
pub open spec fn stored_bcd(mem: Seq<u8>, i: int, val: u8) -> Seq<u8> {
    mem.update(wrap(i), val / 100).update(wrap(i + 1), (val % 100) / 10).update(wrap(i + 2), val % 10)
}

/// The timer, index and memory group (`Fx..`), keyed by the low byte.
pub open spec fn misc_step(s: ContextView, mem: Seq<u8>, x: int, lo: u8) -> Option<(ContextView, Seq<u8>)> {
    let vx = s.v[x];
    if lo == 0x07 {
        Some((with_reg(s, x, s.dt), mem))
    } else if lo == 0x15 {
        Some((ContextView { dt: vx, ..s }, mem))
    } else if lo == 0x18 {
        Some((ContextView { st: vx, ..s }, mem))
    } else if lo == 0x1E {
        let r = s.i + vx;
        Some((ContextView { i: wrap(r), v: s.v.update(15, if r > 0xFFF { 1u8 } else { 0u8 }), ..s }, mem))
    } else if lo == 0x29 {
        Some((ContextView { i: vx * GLYPH_BYTES, ..s }, mem))
    } else if lo == 0x33 {
        Some((s, stored_bcd(mem, s.i, vx)))
    } else if lo == 0x55 {
        Some((ContextView { i: wrap(s.i + x + 1), ..s }, stored_regs(mem, s.i, s.v, x)))
    } else if lo == 0x65 {
        Some((ContextView { i: wrap(s.i + x + 1), v: loaded_regs(mem, s.i, s.v, x), ..s }, mem))
    } else {
        None
    }
}

/// The system group (`00E0`, `00EE`): clear the display, return from a
/// subroutine.
#[verifier::opaque]
pub open spec fn system_step(s: ContextView, mem: Seq<u8>, w: u16) -> Option<(ContextView, Seq<u8>)> {
    if nibble_b(w) == 0x0 && nibble_c(w) == 0xE && nibble_d(w) == 0x0 {
        Some((ContextView { screen: Seq::new(s.screen.len(), |k: int| false), ..s }, mem))
    } else if nibble_b(w) == 0x0 && nibble_c(w) == 0xE && nibble_d(w) == 0xE {
        Some((ContextView { pc: wrap(stack_load(mem, s.sp) as int), sp: sp_down(s.sp), ..s }, mem))
    } else {
        None
    }
}

/// The jumps and the call (`1nnn`, `2nnn`, `Bnnn`).
#[verifier::opaque]
pub open spec fn jump_step(s: ContextView, mem: Seq<u8>, w: u16) -> (ContextView, Seq<u8>) {
    let a = nibble_a(w);
    if a == 0x1 {
        (ContextView { pc: imm12(w) as int, ..s }, mem)
    } else if a == 0x2 {
        (
            ContextView { pc: imm12(w) as int, sp: sp_up(s.sp), ..s },
            stack_store(mem, sp_up(s.sp), s.pc as u16),
        )
    } else {
        (ContextView { pc: wrap(imm12(w) + s.v[0]), ..s }, mem)
    }
}

/// The conditional skips (`3xnn`, `4xnn`, `5xy.`, `9xy0`, `Ex9E`, `ExA1`).
#[verifier::opaque]
pub open spec fn skip_step(s: ContextView, keys: Seq<bool>, w: u16) -> Option<ContextView> {
    let a = nibble_a(w);
    let vx = s.v[nibble_b(w) as int];
    let vy = s.v[nibble_c(w) as int];
    let c = nibble_c(w);
    let d = nibble_d(w);
    if a == 0x3 {
        Some(skip_if(s, vx == imm8(w)))
    } else if a == 0x4 {
        Some(skip_if(s, vx != imm8(w)))
    } else if a == 0x5 {
        Some(skip_if(s, vx == vy))
    } else if a == 0x9 && d == 0x0 {
        Some(skip_if(s, vx != vy))
    } else if a == 0xE && c == 0x9 && d == 0xE {
        Some(skip_if(s, key_down(keys, vx)))
    } else if a == 0xE && c == 0xA && d == 0x1 {
        Some(skip_if(s, !key_down(keys, vx)))
    } else {
        None
    }
}

/// The register loads (`6xnn`, `7xnn`, `Annn`, `Cxnn`).
#[verifier::opaque]
pub open spec fn load_step(s: ContextView, rnd: u8, w: u16) -> ContextView {
    let a = nibble_a(w);
    let x = nibble_b(w) as int;
    if a == 0x6 {
        with_reg(s, x, imm8(w))
    } else if a == 0x7 {
        with_reg(s, x, ((s.v[x] + imm8(w)) % 256) as u8)
    } else if a == 0xA {
        ContextView { i: imm12(w) as int, ..s }
    } else {
        with_reg(s, x, rnd & imm8(w))
    }
}

/// One CHIP-8 instruction `w` applied to the context `s` and memory `mem`,
/// with the keypad state `keys` and the random byte `rnd`; `None` when `w`
/// is not a CHIP-8 instruction.
#[verifier::opaque]
pub open spec fn chip8_step(s: ContextView, mem: Seq<u8>, keys: Seq<bool>, rnd: u8, w: u16) -> Option<
    (ContextView, Seq<u8>),
> {
    let a = nibble_a(w);
    if a == 0x0 {
        system_step(s, mem, w)
    } else if a == 0x1 || a == 0x2 || a == 0xB {
        Some(jump_step(s, mem, w))
    } else if a == 0x3 || a == 0x4 || a == 0x5 || a == 0x9 || a == 0xE {
        match skip_step(s, keys, w) {
            Some(t) => Some((t, mem)),
            None => None,
        }
    } else if a == 0x6 || a == 0x7 || a == 0xA || a == 0xC {
        Some((load_step(s, rnd, w), mem))
    } else if a == 0x8 {
        match alu_view(s, nibble_b(w) as int, nibble_c(w) as int, nibble_d(w)) {
            Some(t) => Some((t, mem)),
            None => None,
        }
    } else if a == 0xD {
        Some((draw_view(s, mem, nibble_b(w) as int, nibble_c(w) as int, nibble_d(w) as int), mem))
    } else {
        misc_step(s, mem, nibble_b(w) as int, imm8(w))
    }
}

/// The outcome of `chip8_step`, as an engine reports it: on `Some` the
/// instruction was handled and the state is the one given; on `None` it was
/// not and nothing changed.
pub open spec fn follows_chip8(
    handled: bool,
    s: ContextView,
    mem: Seq<u8>,
    s2: ContextView,
    mem2: Seq<u8>,
    keys: Seq<bool>,
    rnd: u8,
    w: u16,
) -> bool {
    match chip8_step(s, mem, keys, rnd, w) {
        Some((t, tm)) => handled && s2 == t && mem2 == tm,
        None => !handled && s2 == s && mem2 == mem,
    }
}

/// The CHIP-8 instruction set, the base that the other variants extend.
pub struct Chip8 {}

impl Chip8 {
    pub fn new() -> (r: Chip8) {
        Chip8 {}
    }

    /// Executes the register-to-register group `8xyd`.
    fn alu(&self, c: &mut Context, x: usize, y: usize, d: u8) -> (handled: bool)
        requires
            old(c)@.wf(),
            x < 16,
            y < 16,
        ensures
            match alu_view(old(c)@, x as int, y as int, d) {
                Some(t) => handled && final(c)@ == t,
                None => !handled && final(c)@ == old(c)@,
            },
    {
        let vx = c.v[x];
        let vy = c.v[y];
        match d {
            0x0 => {
                c.v[x] = vy;
            },
            0x1 => {
                c.v[x] = vx | vy;
            },
            0x2 => {
                c.v[x] = vx & vy;
            },
            0x3 => {
                c.v[x] = vx ^ vy;
            },
            0x4 => {
                let r = vx as u16 + vy as u16;
                c.v[x] = (r % 256) as u8;
                c.v[15] = if r > 0xFF { 1 } else { 0 };
            },
            0x5 => {
                c.v[15] = if vx >= vy { 1 } else { 0 };
                c.v[x] = vx.wrapping_sub(vy);
            },
            0x6 => {
                c.v[15] = vx & 1;
                c.v[x] = vx >> 1;
                assert(vx & 1 == vx % 2 && vx >> 1 == vx / 2) by (bit_vector);
            },
            0x7 => {
                c.v[15] = if vy >= vx { 1 } else { 0 };
                c.v[x] = vy.wrapping_sub(vx);
            },
            0xE => {
                c.v[15] = vx >> 7;
                c.v[x] = vx << 1;
                assert(vx >> 7 == vx / 128 && vx << 1 == ((vx * 2) % 256) as u8) by (bit_vector);
            },
            _ => {
                return false;
            },
        }
        proof {
            assert(c@.v =~= alu_view(old(c)@, x as int, y as int, d).unwrap().v);
        }
        true
    }

    /// Executes the timer, index and memory group `Fx..`.
    fn misc(&self, c: &mut Context, m: &mut Mmu, x: usize, lo: u8) -> (handled: bool)
        requires
            old(c)@.wf(),
            x < 16,
        ensures
            match misc_step(old(c)@, old(m)@, x as int, lo) {
                Some((t, tm)) => handled && final(c)@ == t && final(m)@ == tm,
                None => !handled && final(c)@ == old(c)@ && final(m)@ == old(m)@,
            },
    {
        let vx = c.v[x];
        match lo {
            0x07 => {
                c.v[x] = c.dt;
            },
            0x15 => {
                c.dt = vx;
            },
            0x18 => {
                c.st = vx;
            },
            0x1E => {
                let r = c.i + vx as usize;
                c.i = r % MEMORY_SIZE;
                c.v[15] = if r > 0xFFF { 1 } else { 0 };
            },
            0x29 => {
                c.i = vx as usize * GLYPH_BYTES;
            },
            0x33 => {
                let i = c.i;
                m.write(i, vx / 100);
                m.write(i + 1, (vx % 100) / 10);
                m.write(i + 2, vx % 10);
            },
            0x55 => {
                self.store_registers(c, m, x);
            },
            0x65 => {
                self.load_registers(c, m, x);
            },
            _ => {
                return false;
            },
        }
        proof {
            let t = misc_step(old(c)@, old(m)@, x as int, lo).unwrap();
            assert(c@.v =~= t.0.v);
        }
        true
    }

    /// Writes registers `0..=x` to memory from the index register on,
    /// leaving the index register just past them.
    fn store_registers(&self, c: &mut Context, m: &mut Mmu, x: usize)
        requires
            old(c)@.wf(),
            x < 16,
        ensures
            final(c)@ == (ContextView { i: wrap(old(c)@.i + x + 1), ..old(c)@ }),
            final(m)@ == stored_regs(old(m)@, old(c)@.i, old(c)@.v, x as int),
    {
        let ghost s = c@;
        let ghost mem = m@;
        proof {
            m.lemma_view_len();
        }
        let mut j: usize = 0;
        while j <= x
            invariant
                s.wf(),
                x < 16,
                j <= x + 1,
                c@ == (ContextView { i: wrap(s.i + j), ..s }),
                m@.len() == MEMORY_SIZE,
                mem.len() == MEMORY_SIZE,
                forall|k: int|
                    0 <= k < MEMORY_SIZE ==> #[trigger] m@[k] == if wrap(k - s.i) < j {
                        s.v[wrap(k - s.i)]
                    } else {
                        mem[k]
                    },
            decreases x + 1 - j,
        {
            let ghost before = m@;
            m.write(c.i, c.v[j]);
            proof {
                assert forall|k: int| 0 <= k < MEMORY_SIZE implies #[trigger] m@[k] == if wrap(k - s.i)
                    < j + 1 {
                    s.v[wrap(k - s.i)]
                } else {
                    mem[k]
                } by {
                    lemma_wrap_offset(s.i, j as int, k);
                }
            }
            c.i = (c.i + 1) % MEMORY_SIZE;
            j = j + 1;
        }
        assert(m@ =~= stored_regs(mem, s.i, s.v, x as int));
    }

    /// Reads registers `0..=x` from memory from the index register on,
    /// leaving the index register just past them.
    fn load_registers(&self, c: &mut Context, m: &mut Mmu, x: usize)
        requires
            old(c)@.wf(),
            x < 16,
        ensures
            final(c)@ == (ContextView {
                i: wrap(old(c)@.i + x + 1),
                v: loaded_regs(old(m)@, old(c)@.i, old(c)@.v, x as int),
                ..old(c)@
            }),
            final(m)@ == old(m)@,
    {
        let ghost s = c@;
        let mut j: usize = 0;
        while j <= x
            invariant
                s.wf(),
                x < 16,
                j <= x + 1,
                m@ == old(m)@,
                c@ == (ContextView { i: wrap(s.i + j), v: c@.v, ..s }),
                c@.v.len() == 16,
                forall|r: int| 0 <= r < 16 ==> #[trigger] c@.v[r] == if r < j {
                    old(m)@[wrap(s.i + r)]
                } else {
                    s.v[r]
                },
            decreases x + 1 - j,
        {
            let b = m.read(c.i);
            c.v[j] = b;
            c.i = (c.i + 1) % MEMORY_SIZE;
            j = j + 1;
        }
        assert(c@.v =~= loaded_regs(old(m)@, s.i, s.v, x as int));
    }

    /// Executes the system group `00..`: clearing the display and returning
    /// from a subroutine.
    fn system(&self, c: &mut Context, m: &mut Mmu, opcode: Opcode) -> (handled: bool)
        requires
            old(c)@.wf(),
            nibble_a(opcode@) == 0x0,
        ensures
            final(c)@.wf(),
            final(c)@.screen.len() == old(c)@.screen.len(),
            forall|keys: Seq<bool>, rnd: u8|
                follows_chip8(handled, old(c)@, old(m)@, final(c)@, final(m)@, keys, rnd, opcode@),
    {
        proof {
            reveal(chip8_step);
            reveal(system_step);
        }
        match opcode.unwrap() {
            (_, 0x0, 0xE, 0x0) => {
                let n = c.screen.len();
                let mut k: usize = 0;
                while k < n
                    invariant
                        n == c.screen.len(),
                        k <= n,
                        c@ == (ContextView { screen: c@.screen, ..old(c)@ }),
                        forall|j: int| 0 <= j < k ==> !c.screen[j],
                    decreases n - k,
                {
                    c.screen.set(k, false);
                    k = k + 1;
                }
                assert(c@.screen =~= Seq::new(old(c)@.screen.len(), |k: int| false));
                true
            },
            (_, 0x0, 0xE, 0xE) => {
                let r = c.stack_pop(m);
                c.pc = r as usize % MEMORY_SIZE;
                true
            },
            _ => false,
        }
    }

    /// Executes the jumps and the call: `1nnn`, `2nnn` and `Bnnn`.
    fn jump(&self, c: &mut Context, m: &mut Mmu, opcode: Opcode) -> (handled: bool)
        requires
            old(c)@.wf(),
            nibble_a(opcode@) == 0x1 || nibble_a(opcode@) == 0x2 || nibble_a(opcode@) == 0xB,
        ensures
            final(c)@.wf(),
            final(c)@.screen.len() == old(c)@.screen.len(),
            forall|keys: Seq<bool>, rnd: u8|
                follows_chip8(handled, old(c)@, old(m)@, final(c)@, final(m)@, keys, rnd, opcode@),
    {
        proof {
            reveal(chip8_step);
            reveal(jump_step);
        }
        let (a, _, _, _) = opcode.unwrap();
        let target = opcode.extract_u12() as usize;
        if a == 0x1 {
            c.pc = target;
        } else if a == 0x2 {
            let pc = c.pc;
            c.stack_push(m, pc as u16);
            c.pc = target;
        } else {
            c.pc = (target + c.v[0] as usize) % MEMORY_SIZE;
        }
        true
    }

    /// Executes the conditional skips: `3xnn`, `4xnn`, `5xy.`, `9xy0`,
    /// `Ex9E` and `ExA1`.
    fn skip(&self, c: &mut Context, keys: &[bool; 16], opcode: Opcode) -> (handled: bool)
        requires
            old(c)@.wf(),
            nibble_a(opcode@) == 0x3 || nibble_a(opcode@) == 0x4 || nibble_a(opcode@) == 0x5
                || nibble_a(opcode@) == 0x9 || nibble_a(opcode@) == 0xE,
        ensures
            final(c)@.wf(),
            final(c)@.screen.len() == old(c)@.screen.len(),
            forall|m: Seq<u8>, rnd: u8|
                follows_chip8(handled, old(c)@, m, final(c)@, m, keys@, rnd, opcode@),
    {
        proof {
            reveal(chip8_step);
            reveal(skip_step);
        }
        let (a, x, y, d) = opcode.unwrap();
        let vx = c.v[x as usize];
        let vy = c.v[y as usize];
        let imm = opcode.extract_u8();
        let cond = match (a, y, d) {
            (0x3, _, _) => vx == imm,
            (0x4, _, _) => vx != imm,
            (0x5, _, _) => vx == vy,
            (0x9, _, 0x0) => vx != vy,
            (0xE, 0x9, 0xE) => vx < 16 && keys[vx as usize],
            (0xE, 0xA, 0x1) => !(vx < 16 && keys[vx as usize]),
            _ => {
                return false;
            },
        };
        if cond {
            c.pc = (c.pc + 2) % MEMORY_SIZE;
        }
        true
    }

    /// Executes the register loads: `6xnn`, `7xnn`, `Annn` and `Cxnn`.
    fn load(&self, c: &mut Context, random: u8, opcode: Opcode) -> (handled: bool)
        requires
            old(c)@.wf(),
            nibble_a(opcode@) == 0x6 || nibble_a(opcode@) == 0x7 || nibble_a(opcode@) == 0xA
                || nibble_a(opcode@) == 0xC,
        ensures
            final(c)@.wf(),
            final(c)@.screen.len() == old(c)@.screen.len(),
            forall|m: Seq<u8>, keys: Seq<bool>|
                follows_chip8(handled, old(c)@, m, final(c)@, m, keys, random, opcode@),
    {
        proof {
            reveal(chip8_step);
            reveal(load_step);
        }
        let (a, x, _, _) = opcode.unwrap();
        let x = x as usize;
        let imm = opcode.extract_u8();
        if a == 0x6 {
            c.v[x] = imm;
        } else if a == 0x7 {
            c.v[x] = c.v[x].wrapping_add(imm);
        } else if a == 0xA {
            c.i = opcode.extract_u12() as usize;
        } else {
            c.v[x] = random & imm;
        }
        true
    }

    /// Executes `opcode` against the context and memory, reading the keypad
    /// state from `keys` and taking `random` as the random byte. Returns
    /// whether the instruction belongs to CHIP-8; when it does not, nothing
    /// changes.
    pub fn execute(
        &self,
        c: &mut Context,
        m: &mut Mmu,
        keys: &[bool; 16],
        random: u8,
        opcode: Opcode,
    ) -> (handled: bool)
        requires
            old(c)@.wf(),
        ensures
            final(c)@.wf(),
            final(c)@.screen.len() == old(c)@.screen.len(),
            follows_chip8(handled, old(c)@, old(m)@, final(c)@, final(m)@, keys@, random, opcode@),
    {
        let (a, x, y, d) = opcode.unwrap();
        match a {
            0x0 => self.system(c, m, opcode),
            0x1 | 0x2 | 0xB => self.jump(c, m, opcode),
            0x3 | 0x4 | 0x5 | 0x9 | 0xE => self.skip(c, keys, opcode),
            0x6 | 0x7 | 0xA | 0xC => self.load(c, random, opcode),
            0x8 => {
                let handled = self.alu(c, x as usize, y as usize, d);
                proof {
                    reveal(chip8_step);
                }
                handled
            },
            0xD => {
                draw_sprite(c, m, x as usize, y as usize, d as usize);
                proof {
                    reveal(chip8_step);
                }
                true
            },
            _ => {
                let handled = self.misc(c, m, x as usize, opcode.extract_u8());
                proof {
                    reveal(chip8_step);
                }
                handled
            },
        }
    }
}

/// Address `wrap(i + j)` is the only one whose offset from `i` is `j`.
proof fn lemma_wrap_offset(i: int, j: int, k: int)
    requires
        0 <= i < MEMORY_SIZE,
        0 <= j < MEMORY_SIZE,
        0 <= k < MEMORY_SIZE,
    ensures
        wrap(k - i) == j <==> k == wrap(i + j),
        0 <= wrap(k - i) < MEMORY_SIZE,
{
}

} // verus!

verus! {

/// Adding two registers (`8xy4`) sets the flag register to 1 exactly when
/// the unsigned sum exceeds 255, and leaves the sum modulo 256 in the
/// destination (unless the destination is the flag register itself).
pub proof fn lemma_add_carry(s: ContextView, mem: Seq<u8>, keys: Seq<bool>, rnd: u8, w: u16)
    requires
        s.wf(),
        nibble_a(w) == 0x8,
        nibble_d(w) == 0x4,
    ensures
        ({
            let x = nibble_b(w) as int;
            let y = nibble_c(w) as int;
            let sum = s.v[x] + s.v[y];
            let t = chip8_step(s, mem, keys, rnd, w).unwrap().0;
            &&& chip8_step(s, mem, keys, rnd, w) is Some
            &&& t.v[15] == (if sum > 255 { 1u8 } else { 0u8 })
            &&& x != 15 ==> t.v[x] == sum % 256
        }),
{
    reveal(chip8_step);
}

/// Subtracting registers (`8xy5`) leaves `(Vx - Vy) mod 256` in the
/// destination and sets the flag register to 1 exactly when `Vx >= Vy`
/// (unless the destination is the flag register itself).
pub proof fn lemma_sub_borrow(s: ContextView, mem: Seq<u8>, keys: Seq<bool>, rnd: u8, w: u16)
    requires
        s.wf(),
        nibble_a(w) == 0x8,
        nibble_d(w) == 0x5,
    ensures
        ({
            let x = nibble_b(w) as int;
            let y = nibble_c(w) as int;
            let t = chip8_step(s, mem, keys, rnd, w).unwrap().0;
            &&& chip8_step(s, mem, keys, rnd, w) is Some
            &&& t.v[x] == (s.v[x] - s.v[y]) % 256
            &&& x != 15 ==> t.v[15] == (if s.v[x] >= s.v[y] { 1u8 } else { 0u8 })
        }),
{
    reveal(chip8_step);
}

/// The shifts (`8xy6`, `8xyE`) put the bit that leaves the register into
/// the flag register, taken from the value before the shift; the register
/// then holds the shifted value of what it held before.
pub proof fn lemma_shift_flag(s: ContextView, mem: Seq<u8>, keys: Seq<bool>, rnd: u8, w: u16)
    requires
        s.wf(),
        nibble_a(w) == 0x8,
        nibble_d(w) == 0x6 || nibble_d(w) == 0xE,
    ensures
        ({
            let x = nibble_b(w) as int;
            let vx = s.v[x];
            let t = chip8_step(s, mem, keys, rnd, w).unwrap().0;
            &&& chip8_step(s, mem, keys, rnd, w) is Some
            &&& nibble_d(w) == 0x6 ==> t.v[x] == vx / 2 && (x != 15 ==> t.v[15] == vx % 2)
            &&& nibble_d(w) == 0xE ==> t.v[x] == (vx * 2) % 256 && (x != 15 ==> t.v[15] == vx / 128)
        }),
{
    reveal(chip8_step);
}

/// Drawing the same sprite at the same place twice in a row leaves the
/// display as it was (the coordinates must not be read from the flag
/// register, which the first draw overwrites).
pub proof fn lemma_draw_twice(s: ContextView, mem: Seq<u8>, keys: Seq<bool>, rnd: u8, w: u16)
    requires
        s.wf(),
        nibble_a(w) == 0xD,
        nibble_b(w) != 15,
        nibble_c(w) != 15,
    ensures
        ({
            let (s1, m1) = chip8_step(s, mem, keys, rnd, w).unwrap();
            let (s2, m2) = chip8_step(s1, m1, keys, rnd, w).unwrap();
            &&& chip8_step(s, mem, keys, rnd, w) is Some
            &&& chip8_step(s1, m1, keys, rnd, w) is Some
            &&& s2.screen == s.screen
            &&& m2 == mem
        }),
{
    reveal(chip8_step);
    reveal(draw_view);
    let (s1, m1) = chip8_step(s, mem, keys, rnd, w).unwrap();
    let (s2, m2) = chip8_step(s1, m1, keys, rnd, w).unwrap();
    assert(s2.screen =~= s.screen);
}

/// The indexed jump (`Bnnn`) lands on `nnn + V0` wrapped into the address
/// space.
pub proof fn lemma_jump_indexed(s: ContextView, mem: Seq<u8>, keys: Seq<bool>, rnd: u8, w: u16)
    requires
        s.wf(),
        nibble_a(w) == 0xB,
    ensures
        ({
            let t = chip8_step(s, mem, keys, rnd, w).unwrap().0;
            &&& chip8_step(s, mem, keys, rnd, w) is Some
            &&& t.pc == (imm12(w) + s.v[0]) % (MEMORY_SIZE as int)
            &&& 0 <= t.pc < MEMORY_SIZE
        }),
{
    reveal(chip8_step);
    reveal(jump_step);
}

/// Storing registers `0..=x` (`Fx55`) and then loading them back (`Fx65`)
/// from the same address into a cleared register file gives back the
/// stored values.
pub proof fn lemma_store_load(
    s: ContextView,
    mem: Seq<u8>,
    keys: Seq<bool>,
    rnd: u8,
    store: u16,
    load: u16,
)
    requires
        s.wf(),
        mem.len() == MEMORY_SIZE,
        nibble_a(store) == 0xF && imm8(store) == 0x55,
        nibble_a(load) == 0xF && imm8(load) == 0x65,
        nibble_b(load) == nibble_b(store),
    ensures
        ({
            let x = nibble_b(store) as int;
            let (s1, m1) = chip8_step(s, mem, keys, rnd, store).unwrap();
            let cleared = ContextView { i: s.i, v: Seq::new(16, |r: int| 0u8), ..s1 };
            let s2 = chip8_step(cleared, m1, keys, rnd, load).unwrap().0;
            &&& chip8_step(s, mem, keys, rnd, store) is Some
            &&& chip8_step(cleared, m1, keys, rnd, load) is Some
            &&& forall|r: int| 0 <= r <= x ==> s2.v[r] == s.v[r]
        }),
{
    reveal(chip8_step);
    let x = nibble_b(store) as int;
    assert forall|r: int| 0 <= r <= x implies #[trigger] wrap(wrap(s.i + r) - s.i) == r by {
        lemma_wrap_offset(s.i, r, wrap(s.i + r));
    }
}

} // verus!

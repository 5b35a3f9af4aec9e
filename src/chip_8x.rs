use vstd::prelude::*;
use crate::chip_8::{chip8_step, Chip8};
use crate::context::{Context, ContextView};
use crate::interpreter::Outcome;
use crate::mmu::{Mmu, MEMORY_SIZE};
use crate::opcode::{nibble_a, nibble_b, nibble_c, nibble_d, Opcode};

verus! {

/// Where CHIP-8X programs are loaded and start.
pub const CHIP8X_START: usize = 0x300;

/// Palette entries, as R3_G3_B2 colours.
pub const BLACK: u8 = 0b000_000_00;
pub const WHITE: u8 = 0b111_111_11;

/// The state CHIP-8X adds: the background colour and the colour lens, one
/// colour per dot.
pub struct Chip8xView {
    pub background: u8,
    pub lens: Seq<u8>,
}

/// One CHIP-8X instruction: the extension's own patterns first, then
/// CHIP-8. The colour instructions (`02A0`, `5xy1`, `Bxyn`) are reported
/// as unsupported and change nothing.
pub open spec fn chip8x_step(s: ContextView, mem: Seq<u8>, keys: Seq<bool>, rnd: u8, w: u16) -> (
    Outcome,
    ContextView,
    Seq<u8>,
) {
    let a = nibble_a(w);
    let b = nibble_b(w);
    let c = nibble_c(w);
    let d = nibble_d(w);
    if (a == 0x0 && b == 0x2 && c == 0xA && d == 0x0) || (a == 0x5 && d == 0x1) || a == 0xB {
        (Outcome::Unsupported, s, mem)
    } else {
        match chip8_step(s, mem, keys, rnd, w) {
            Some((t, tm)) => (Outcome::Handled, t, tm),
            None => (Outcome::Unknown, s, mem),
        }
    }
}

/// The framebuffer CHIP-8X shows: each lit dot in its lens colour, every
/// other dot in the background colour.
pub open spec fn tinted(screen: Seq<bool>, lens: Seq<u8>, background: u8) -> Seq<u8> {
    Seq::new(screen.len(), |k: int| if screen[k] { lens[k] } else { background })
}

/// The CHIP-8X instruction set: CHIP-8 with a background colour and a
/// colour lens over the display.
pub struct Chip8x {
    chip_8: Chip8,
    background_color: u8,
    color_lens: Vec<u8>,
}

impl View for Chip8x {
    type V = Chip8xView;

    closed spec fn view(&self) -> Chip8xView {
        Chip8xView { background: self.background_color, lens: self.color_lens@ }
    }
}

impl Chip8x {
    /// A CHIP-8X with a black background and no lens yet.
    pub fn new() -> (r: Chip8x)
        ensures
            r@ == (Chip8xView { background: BLACK, lens: Seq::empty() }),
    {
        let r = Chip8x { chip_8: Chip8::new(), background_color: BLACK, color_lens: Vec::new() };
        assert(r@.lens =~= Seq::<u8>::empty());
        r
    }

    /// Sizes the colour lens to the display; dots it did not cover yet
    /// get white.
    pub fn configure(&mut self, c: &Context)
        ensures
            final(self)@.background == old(self)@.background,
            final(self)@.lens.len() == c@.screen.len(),
            forall|k: int|
                0 <= k < c@.screen.len() ==> #[trigger] final(self)@.lens[k] == if k < old(self)@.lens.len() {
                    old(self)@.lens[k]
                } else {
                    WHITE
                },
    {
        self.color_lens.resize(c.screen.len(), WHITE);
    }

    /// Restores the black background and an all-white lens, and starts the
    /// program at its CHIP-8X load address.
    pub fn reset(&mut self, c: &mut Context)
        ensures
            final(self)@ == (Chip8xView {
                background: BLACK,
                lens: Seq::new(old(self)@.lens.len(), |k: int| WHITE),
            }),
            final(c)@ == (ContextView { pc: CHIP8X_START as int, ..old(c)@ }),
    {
        self.background_color = BLACK;
        let n = self.color_lens.len();
        let mut k: usize = 0;
        while k < n
            invariant
                n == self.color_lens.len(),
                k <= n,
                self.background_color == BLACK,
                forall|j: int| 0 <= j < k ==> self.color_lens[j] == WHITE,
            decreases n - k,
        {
            self.color_lens.set(k, WHITE);
            k = k + 1;
        }
        c.pc = CHIP8X_START;
        assert(self@.lens =~= Seq::new(n as nat, |k: int| WHITE));
    }

    /// Copies a program into memory at the CHIP-8X load address.
    pub fn insert_rom(&self, m: &mut Mmu, buffer: &[u8])
        requires
            CHIP8X_START + buffer@.len() <= MEMORY_SIZE,
        ensures
            final(m)@ == old(m)@.subrange(0, CHIP8X_START as int) + buffer@ + old(m)@.subrange(
                CHIP8X_START + buffer@.len(),
                MEMORY_SIZE as int,
            ),
    {
        m.write_all(CHIP8X_START, buffer);
    }

    /// Fills the framebuffer with one colour byte per dot.
    pub fn update_framebuffer(&self, c: &mut Context)
        requires
            self@.lens.len() == old(c)@.screen.len(),
        ensures
            final(c)@ == (ContextView {
                framebuffer: tinted(old(c)@.screen, self@.lens, self@.background),
                ..old(c)@
            }),
    {
        let n = c.screen.len();
        c.framebuffer.resize(n, 0);
        let mut k: usize = 0;
        while k < n
            invariant
                n == c.screen.len(),
                n == self.color_lens.len(),
                k <= n,
                c@ == (ContextView { framebuffer: c@.framebuffer, ..old(c)@ }),
                c.framebuffer@.len() == n,
                forall|j: int| 0 <= j < k ==> #[trigger] c.framebuffer@[j] == if c.screen@[j] {
                    self.color_lens@[j]
                } else {
                    self.background_color
                },
            decreases n - k,
        {
            let colour = if c.screen[k] { self.color_lens[k] } else { self.background_color };
            c.framebuffer.set(k, colour);
            k = k + 1;
        }
        assert(c@.framebuffer =~= tinted(old(c)@.screen, self@.lens, self@.background));
    }

    /// Executes `opcode`: the CHIP-8X patterns first, anything else by the
    /// CHIP-8 engine it extends.
    pub fn execute(
        &mut self,
        c: &mut Context,
        m: &mut Mmu,
        keys: &[bool; 16],
        random: u8,
        opcode: Opcode,
    ) -> (r: Outcome)
        requires
            old(c)@.wf(),
        ensures
            final(c)@.wf(),
            final(c)@.screen.len() == old(c)@.screen.len(),
            final(self)@ == old(self)@,
            (r, final(c)@, final(m)@) == chip8x_step(old(c)@, old(m)@, keys@, random, opcode@),
    {
        match opcode.unwrap() {
            (0x0, 0x2, 0xA, 0x0) | (0x5, _, _, 0x1) | (0xB, ..) => Outcome::Unsupported,
            _ => {
                if self.chip_8.execute(c, m, keys, random, opcode) {
                    Outcome::Handled
                } else {
                    Outcome::Unknown
                }
            },
        }
    }
}

} // verus!

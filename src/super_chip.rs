use vstd::prelude::*;
use crate::chip_8::{chip8_step, Chip8};
use crate::context::{Context, ContextView};
use crate::interpreter::Outcome;
use crate::mmu::Mmu;
use crate::opcode::{imm8, nibble_a, nibble_b, nibble_c, nibble_d, Opcode};

verus! {

/// Registers that the scratch storage can hold (the HP48 kept them in its
/// eight RPL user flags).
pub const SCRATCH_LEN: usize = 8;

/// Width and height of the SUPER-CHIP display.
pub const EXTENDED_WIDTH: usize = 128;
pub const EXTENDED_HEIGHT: usize = 64;

/// The state SUPER-CHIP adds: its scratch registers, and whether the
/// extended display mode is on.
pub struct SuperChipView {
    pub scratch: Seq<u8>,
    pub extended: bool,
}

/// How the SUPER-CHIP shows the display.
#[derive(Clone, Copy, PartialEq, Eq, Structural)]
pub enum DisplayMode {
    /// 64x32 logical dots, each shown as a 2x2 block.
    Standard,
    /// All 128x64 dots.
    Extended,
}

/// The index of the last register that `Fx75`/`Fx85` move: `x`, at most 7.
pub open spec fn scratch_last(x: int) -> int {
    if x < SCRATCH_LEN as int { x } else { SCRATCH_LEN - 1 }
}

/// One SUPER-CHIP instruction: the extension's own patterns first, then
/// CHIP-8. Scrolling, the 16x16 sprite, the double-size 8-row sprite of
/// the standard mode and the large font are reported as unsupported and
/// change nothing.
pub open spec fn super_step(
    sv: SuperChipView,
    s: ContextView,
    mem: Seq<u8>,
    keys: Seq<bool>,
    rnd: u8,
    w: u16,
) -> (Outcome, SuperChipView, ContextView, Seq<u8>) {
    let a = nibble_a(w);
    let x = nibble_b(w) as int;
    let c = nibble_c(w);
    let d = nibble_d(w);
    if a == 0x0 && x == 0x0 && (c == 0xC || (c == 0xF && (d == 0xB || d == 0xC))) {
        (Outcome::Unsupported, sv, s, mem)
    } else if a == 0x0 && x == 0x0 && c == 0xF && d == 0xE {
        (Outcome::Handled, SuperChipView { extended: true, ..sv }, s, mem)
    } else if a == 0x0 && x == 0x0 && c == 0xF && d == 0xF {
        (Outcome::Handled, SuperChipView { extended: false, ..sv }, s, mem)
    } else if a == 0xD && (!sv.extended || d == 0x0) {
        (Outcome::Unsupported, sv, s, mem)
    } else if a == 0xF && imm8(w) == 0x30 {
        (Outcome::Unsupported, sv, s, mem)
    } else if a == 0xF && imm8(w) == 0x75 {
        let scratch = Seq::new(
            SCRATCH_LEN as nat,
            |r: int| if r <= scratch_last(x) { s.v[r] } else { sv.scratch[r] },
        );
        (Outcome::Handled, SuperChipView { scratch, ..sv }, s, mem)
    } else if a == 0xF && imm8(w) == 0x85 {
        let v = Seq::new(16, |r: int| if r <= scratch_last(x) { sv.scratch[r] } else { s.v[r] });
        (Outcome::Handled, sv, ContextView { v, ..s }, mem)
    } else {
        match chip8_step(s, mem, keys, rnd, w) {
            Some((t, tm)) => (Outcome::Handled, sv, t, tm),
            None => (Outcome::Unknown, sv, s, mem),
        }
    }
}

/// The SUPER-CHIP instruction set: CHIP-8 with a 128x64 display, a display
/// mode switch and scratch storage for up to eight registers.
pub struct SuperChip {
    chip_8: Chip8,
    v_scratch: [u8; 8],
    mode: DisplayMode,
}

impl View for SuperChip {
    type V = SuperChipView;

    closed spec fn view(&self) -> SuperChipView {
        SuperChipView { scratch: self.v_scratch@, extended: self.mode == DisplayMode::Extended }
    }
}

impl SuperChip {
    /// A SUPER-CHIP in its reset state.
    pub fn new() -> (r: SuperChip)
        ensures
            r@ == (SuperChipView { scratch: Seq::new(SCRATCH_LEN as nat, |k: int| 0u8), extended: false }),
    {
        let r = SuperChip { chip_8: Chip8::new(), v_scratch: [0u8; 8], mode: DisplayMode::Standard };
        assert(r@.scratch =~= Seq::new(SCRATCH_LEN as nat, |k: int| 0u8));
        r
    }

    /// Switches the context to the 128x64 display, keeping the dots it had
    /// and adding cleared ones.
    pub fn configure(&mut self, c: &mut Context)
        ensures
            final(self)@ == old(self)@,
            final(c)@ == (ContextView {
                width: EXTENDED_WIDTH as int,
                height: EXTENDED_HEIGHT as int,
                screen: final(c)@.screen,
                ..old(c)@
            }),
            final(c)@.screen.len() == EXTENDED_WIDTH * EXTENDED_HEIGHT,
            forall|k: int|
                0 <= k < final(c)@.screen.len() ==> #[trigger] final(c)@.screen[k] == (k
                    < old(c)@.screen.len() && old(c)@.screen[k]),
    {
        c.screen_width = EXTENDED_WIDTH;
        c.screen_height = EXTENDED_HEIGHT;
        c.screen.resize(EXTENDED_WIDTH * EXTENDED_HEIGHT, false);
    }

    /// Clears the scratch storage and returns to the standard display mode.
    pub fn reset(&mut self)
        ensures
            final(self)@ == (SuperChipView { scratch: Seq::new(SCRATCH_LEN as nat, |k: int| 0u8), extended: false }),
    {
        self.v_scratch = [0u8; 8];
        self.mode = DisplayMode::Standard;
        assert(self@.scratch =~= Seq::new(SCRATCH_LEN as nat, |k: int| 0u8));
    }

    /// Executes `opcode`: the SUPER-CHIP patterns first, anything else by
    /// the CHIP-8 engine it extends.
    pub fn execute(
        &mut self,
        c: &mut Context,
        m: &mut Mmu,
        keys: &[bool; 16],
        random: u8,
        opcode: Opcode,
    ) -> (r: Outcome)
        requires
            old(c)@.wf(),
        ensures
            final(c)@.wf(),
            final(c)@.screen.len() == old(c)@.screen.len(),
            (r, final(self)@, final(c)@, final(m)@) == super_step(
                old(self)@,
                old(c)@,
                old(m)@,
                keys@,
                random,
                opcode@,
            ),
    {
        let (a, x, y, d) = opcode.unwrap();
        let x = x as usize;
        match (a, x, y, d) {
            (0x0, 0x0, 0xC, _) | (0x0, 0x0, 0xF, 0xB) | (0x0, 0x0, 0xF, 0xC) => Outcome::Unsupported,
            (0x0, 0x0, 0xF, 0xE) => {
                self.mode = DisplayMode::Extended;
                Outcome::Handled
            },
            (0x0, 0x0, 0xF, 0xF) => {
                self.mode = DisplayMode::Standard;
                Outcome::Handled
            },
            (0xD, _, _, 0x0) => Outcome::Unsupported,
            (0xD, ..) if self.mode == DisplayMode::Standard => Outcome::Unsupported,
            (0xF, _, 0x3, 0x0) => Outcome::Unsupported,
            (0xF, _, 0x7, 0x5) => {
                let last = if x < SCRATCH_LEN { x } else { SCRATCH_LEN - 1 };
                let mut k: usize = 0;
                while k <= last
                    invariant
                        last < SCRATCH_LEN,
                        k <= last + 1,
                        c@ == old(c)@,
                        self.mode == old(self).mode,
                        self.v_scratch@.len() == SCRATCH_LEN,
                        forall|r: int| 0 <= r < SCRATCH_LEN ==> #[trigger] self.v_scratch@[r] == if r < k {
                            c@.v[r]
                        } else {
                            old(self)@.scratch[r]
                        },
                    decreases last + 1 - k,
                {
                    self.v_scratch[k] = c.v[k];
                    k = k + 1;
                }
                assert(self@.scratch =~= super_step(old(self)@, old(c)@, old(m)@, keys@, random, opcode@).1.scratch);
                Outcome::Handled
            },
            (0xF, _, 0x8, 0x5) => {
                let last = if x < SCRATCH_LEN { x } else { SCRATCH_LEN - 1 };
                let mut k: usize = 0;
                while k <= last
                    invariant
                        last < SCRATCH_LEN,
                        k <= last + 1,
                        self@ == old(self)@,
                        c@ == (ContextView { v: c@.v, ..old(c)@ }),
                        c@.v.len() == 16,
                        forall|r: int| 0 <= r < 16 ==> #[trigger] c@.v[r] == if r < k {
                            old(self)@.scratch[r]
                        } else {
                            old(c)@.v[r]
                        },
                    decreases last + 1 - k,
                {
                    c.v[k] = self.v_scratch[k];
                    k = k + 1;
                }
                assert(c@.v =~= super_step(old(self)@, old(c)@, old(m)@, keys@, random, opcode@).2.v);
                Outcome::Handled
            },
            _ => {
                if self.chip_8.execute(c, m, keys, random, opcode) {
                    Outcome::Handled
                } else {
                    Outcome::Unknown
                }
            },
        }
    }
}

} // verus!

use vstd::prelude::*;
use crate::mmu::{Mmu, MEMORY_SIZE};
use crate::opcode::word_of;

verus! {

/// Columns of a sprite row: one byte, one dot per bit.
pub const SPRITE_WIDTH: usize = 8;

/// Rows of the tallest sprite a draw instruction can name.
pub const MAX_SPRITE_ROWS: usize = 15;

/// Width and height of the standard display.
pub const STANDARD_WIDTH: usize = 64;
pub const STANDARD_HEIGHT: usize = 32;

/// Where a program starts unless its variant says otherwise.
pub const PROGRAM_START: usize = 0x200;

/// Where the call stack lives in memory: two bytes per saved address.
pub const STACK_BASE: usize = 0x100;

/// Depth of the call stack.
pub const STACK_LEN: usize = 256;

/// The mathematical state of an execution context.
pub struct ContextView {
    pub v: Seq<u8>,
    pub i: int,
    pub pc: int,
    pub sp: u8,
    pub stack_len: int,
    pub screen: Seq<bool>,
    pub width: int,
    pub height: int,
    pub dt: u8,
    pub st: u8,
    pub framebuffer: Seq<u8>,
}

impl ContextView {
    /// The state every engine works on: sixteen registers, a display
    /// buffer that matches its geometry and fits any sprite without
    /// folding onto itself, and addresses inside the address space.
    pub open spec fn wf(&self) -> bool {
        &&& self.v.len() == 16
        &&& self.width >= SPRITE_WIDTH
        &&& self.height >= MAX_SPRITE_ROWS
        &&& self.screen.len() == self.width * self.height
        &&& 0 <= self.pc < MEMORY_SIZE
        &&& 0 <= self.i < MEMORY_SIZE
    }
}

/// The memory address of the stack slot that `sp` points to.
pub open spec fn stack_slot(sp: u8) -> int {
    STACK_BASE + 2 * sp
}

/// `sp` moved one slot up, wrapping as the hardware counter does.
pub open spec fn sp_up(sp: u8) -> u8 {
    ((sp + 1) % 256) as u8
}

/// `sp` moved one slot down, wrapping as the hardware counter does.
pub open spec fn sp_down(sp: u8) -> u8 {
    ((sp + 255) % 256) as u8
}

/// Memory after saving `value` in the slot that `sp` points to.
pub open spec fn stack_store(mem: Seq<u8>, sp: u8, value: u16) -> Seq<u8> {
    mem.update(stack_slot(sp), (value / 0x100) as u8).update(stack_slot(sp) + 1, (value % 0x100) as u8)
}

/// The address saved in the slot that `sp` points to.
pub open spec fn stack_load(mem: Seq<u8>, sp: u8) -> u16 {
    word_of(mem[stack_slot(sp)], mem[stack_slot(sp) + 1])
}

/// The machine-wide state shared by every variant engine.
pub struct Context {
    /// Host-ready pixels, one byte per dot, filled at the end of a frame.
    pub framebuffer: Vec<u8>,
    /// General registers; register 15 doubles as the flag output.
    pub v: [u8; 16],
    /// Index register, an address.
    pub i: usize,
    /// Program counter: the address of the next instruction.
    pub pc: usize,
    /// Stack pointer.
    pub sp: u8,
    pub stack_len: usize,
    /// Display buffer, row-major, `screen_width * screen_height` dots.
    pub screen: Vec<bool>,
    pub screen_width: usize,
    pub screen_height: usize,
    /// Delay timer.
    pub dt: u8,
    /// Sound timer.
    pub st: u8,
}

impl View for Context {
    type V = ContextView;

    open spec fn view(&self) -> ContextView {
        ContextView {
            v: self.v@,
            i: self.i as int,
            pc: self.pc as int,
            sp: self.sp,
            stack_len: self.stack_len as int,
            screen: self.screen@,
            width: self.screen_width as int,
            height: self.screen_height as int,
            dt: self.dt,
            st: self.st,
            framebuffer: self.framebuffer@,
        }
    }
}

/// The state after a reset: registers, timers and display cleared, the
/// program counter at the program's start; geometry and stack depth kept.
pub open spec fn reset_view(s: ContextView) -> ContextView {
    ContextView {
        v: Seq::new(16, |k: int| 0u8),
        i: 0,
        pc: PROGRAM_START as int,
        sp: 0,
        dt: 0,
        st: 0,
        framebuffer: Seq::empty(),
        screen: Seq::new(s.screen.len(), |k: int| false),
        ..s
    }
}

impl Context {
    /// A context with the standard 64x32 display, in its reset state.
    pub fn new() -> (r: Context)
        ensures
            r@ == reset_view(r@),
            r@.width == STANDARD_WIDTH,
            r@.height == STANDARD_HEIGHT,
            r@.stack_len == STACK_LEN,
            r@.wf(),
    {
        let mut screen: Vec<bool> = Vec::new();
        let n = STANDARD_WIDTH * STANDARD_HEIGHT;
        while screen.len() < n
            invariant
                screen.len() <= n,
                forall|k: int| 0 <= k < screen.len() ==> !screen[k],
            decreases n - screen.len(),
        {
            screen.push(false);
        }
        let r = Context {
            framebuffer: Vec::new(),
            v: [0u8; 16],
            i: 0,
            pc: PROGRAM_START,
            sp: 0,
            stack_len: STACK_LEN,
            screen,
            screen_width: STANDARD_WIDTH,
            screen_height: STANDARD_HEIGHT,
            dt: 0,
            st: 0,
        };
        assert(r@.v =~= Seq::new(16, |k: int| 0u8));
        assert(r@.screen =~= Seq::new(r@.screen.len(), |k: int| false));
        assert(r@.framebuffer =~= Seq::<u8>::empty());
        r
    }

    /// Clears registers, timers, framebuffer and display, and points the
    /// program counter at the program's start.
    pub fn reset(&mut self)
        ensures
            final(self)@ == reset_view(old(self)@),
    {
        let n = self.screen.len();
        let mut k: usize = 0;
        while k < n
            invariant
                n == self.screen.len(),
                k <= n,
                forall|j: int| 0 <= j < k ==> !self.screen[j],
                self.stack_len == old(self).stack_len,
                self.screen_width == old(self).screen_width,
                self.screen_height == old(self).screen_height,
            decreases n - k,
        {
            self.screen.set(k, false);
            k = k + 1;
        }
        self.v = [0u8; 16];
        self.i = 0;
        self.pc = PROGRAM_START;
        self.sp = 0;
        self.dt = 0;
        self.st = 0;
        self.framebuffer.clear();
        assert(self@.v =~= Seq::new(16, |k: int| 0u8));
        assert(self@.screen =~= Seq::new(n as nat, |k: int| false));
        assert(self@.framebuffer =~= Seq::<u8>::empty());
        assert(self@ =~= reset_view(old(self)@));
    }

    /// Saves `value` on the call stack: the stack pointer moves up one
    /// slot, wrapping, and the value goes there, high byte first.
    pub fn stack_push(&mut self, m: &mut Mmu, value: u16)
        ensures
            final(self)@ == (ContextView { sp: sp_up(old(self).sp), ..old(self)@ }),
            final(m)@ == stack_store(old(m)@, sp_up(old(self).sp), value),
    {
        self.sp = self.sp.wrapping_add(1);
        let address = STACK_BASE + (self.sp as usize) * 2;
        m.write(address, (value >> 8) as u8);
        m.write(address + 1, (value & 0xFF) as u8);
        assert((value >> 8) as u8 == (value / 0x100) as u8) by (bit_vector);
        assert((value & 0xFF) as u8 == (value % 0x100) as u8) by (bit_vector);
    }

    /// Takes the address in the slot that the stack pointer points to, then
    /// moves the stack pointer down one slot, wrapping.
    pub fn stack_pop(&mut self, m: &mut Mmu) -> (r: u16)
        ensures
            r == stack_load(old(m)@, old(self).sp),
            final(self)@ == (ContextView { sp: sp_down(old(self).sp), ..old(self)@ }),
            final(m)@ == old(m)@,
    {
        let address = STACK_BASE + (self.sp as usize) * 2;
        let hi = m.read(address);
        let lo = m.read(address + 1);
        self.sp = self.sp.wrapping_sub(1);
        assert(((hi as u16) << 8 | lo as u16) as int == hi as int * 0x100 + lo as int) by (bit_vector);
        ((hi as u16) << 8) | (lo as u16)
    }
}

} // verus!

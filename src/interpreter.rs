use vstd::prelude::*;
use vstd::string::StrSliceExecFns;
use crate::chip_8::{chip8_step, Chip8};
use crate::chip_8x::{chip8x_step, tinted, Chip8x, Chip8xView, BLACK, CHIP8X_START, WHITE};
use crate::context::{
    reset_view, Context, ContextView, PROGRAM_START, STACK_LEN, STANDARD_HEIGHT, STANDARD_WIDTH,
};
use crate::font::{load_font, with_font};
use crate::mmu::{wrap, zeroed, Mmu, MEMORY_SIZE};
use crate::opcode::{word_of, Opcode};
use crate::super_chip::{
    super_step, SuperChip, SuperChipView, EXTENDED_HEIGHT, EXTENDED_WIDTH, SCRATCH_LEN,
};

verus! {

/// What an engine made of one instruction.
#[derive(Clone, Copy, PartialEq, Eq, Structural, Debug)]
pub enum Outcome {
    /// The instruction was executed.
    Handled,
    /// The instruction belongs to the variant but is not implemented; it
    /// changed nothing.
    Unsupported,
    /// No engine of the chain knows the instruction; it changed nothing.
    Unknown,
}

/// Why the interpreter stopped.
#[derive(Clone, Copy, PartialEq, Eq, Structural, Debug)]
pub enum Fault {
    /// No program is loaded.
    NoProgram,
    /// No engine of the chain recognises this instruction word.
    UnknownOpcode(u16),
    /// The program does not fit between its load address and the end of
    /// memory.
    RomTooLarge,
}

/// Interpreter mode of operation: the instruction-set dialect of a program.
#[derive(Clone, Copy, PartialEq, Eq, Structural, Debug)]
pub enum Mode {
    Chip8,
    HiResChip8,
    Chip8x,
    Chip10,
    SuperChip,
    XoChip,
}

/// The mode a file extension stands for: `ch10` is CHIP-10, `c8x` is
/// CHIP-8X, anything else the extended dialect.
pub open spec fn mode_for_extension(ext: Seq<char>) -> Mode {
    if ext == seq!['c', 'h', '1', '0'] {
        Mode::Chip10
    } else if ext == seq!['c', '8', 'x'] {
        Mode::Chip8x
    } else {
        Mode::XoChip
    }
}

/// The extension of a file name, as `std::path::Path` reads it.
pub uninterp spec fn extension_of(filename: Seq<char>) -> Seq<char>;

/// Relies on `std::path::Path::extension`: the extension of the path's file
/// name, read as text, or the empty string where it has none.
#[verifier::external_body]
fn file_extension(filename: &str) -> (r: String)
    ensures
        r@ == extension_of(filename@),
{
    std::path::Path::new(filename).extension().unwrap_or_default().to_string_lossy().into_owned()
}

/// Relies on `rand::random`: a byte from the thread-local generator. Any
/// value may come.
#[verifier::external_body]
fn random_byte() -> (r: u8) {
    rand::random::<u8>()
}

impl Mode {
    /// The mode that a file extension stands for.
    pub fn from_extension(ext: &str) -> (r: Mode)
        ensures
            r == mode_for_extension(ext@),
    {
        let n = ext.unicode_len();
        if n == 4 && ext.get_char(0) == 'c' && ext.get_char(1) == 'h' && ext.get_char(2) == '1'
            && ext.get_char(3) == '0' {
            assert(ext@ =~= seq!['c', 'h', '1', '0']);
            Mode::Chip10
        } else if n == 3 && ext.get_char(0) == 'c' && ext.get_char(1) == '8' && ext.get_char(2)
            == 'x' {
            assert(ext@ =~= seq!['c', '8', 'x']);
            Mode::Chip8x
        } else {
            Mode::XoChip
        }
    }

    /// The mode that a program's file name stands for, by its extension.
    pub fn from_file(filename: &str) -> (r: Mode)
        ensures
            r == mode_for_extension(extension_of(filename@)),
    {
        let ext = file_extension(filename);
        Mode::from_extension(ext.as_str())
    }
}

/// The mode a program runs in: the one given, else the one its file
/// name's extension stands for.
pub open spec fn chosen_mode(filename: Seq<char>, mode: Option<Mode>) -> Mode {
    match mode {
        Some(m) => m,
        None => mode_for_extension(extension_of(filename)),
    }
}

/// The state of the active engine.
pub enum RuntimeView {
    Chip8,
    Chip8x(Chip8xView),
    SuperChip(SuperChipView),
}

/// The active engine: one variant instruction set, chosen when a program
/// is loaded.
pub enum Runtime {
    Chip8(Chip8),
    Chip8x(Chip8x),
    SuperChip(SuperChip),
}

impl View for Runtime {
    type V = RuntimeView;

    open spec fn view(&self) -> RuntimeView {
        match self {
            Runtime::Chip8(_) => RuntimeView::Chip8,
            Runtime::Chip8x(e) => RuntimeView::Chip8x(e@),
            Runtime::SuperChip(e) => RuntimeView::SuperChip(e@),
        }
    }
}

/// The engine a mode runs on: CHIP-8X and SUPER-CHIP have their own, every
/// other dialect runs on CHIP-8.
pub open spec fn runtime_for_mode(mode: Mode) -> RuntimeView {
    match mode {
        Mode::Chip8x => RuntimeView::Chip8x(Chip8xView { background: BLACK, lens: Seq::empty() }),
        Mode::SuperChip => RuntimeView::SuperChip(
            SuperChipView { scratch: Seq::new(SCRATCH_LEN as nat, |k: int| 0u8), extended: false },
        ),
        _ => RuntimeView::Chip8,
    }
}

/// Where the engine loads programs and starts them.
pub open spec fn start_of(rv: RuntimeView) -> int {
    match rv {
        RuntimeView::Chip8x(_) => CHIP8X_START as int,
        _ => PROGRAM_START as int,
    }
}

/// `screen` cut or extended with cleared dots to `n` dots.
pub open spec fn resized(screen: Seq<bool>, n: int) -> Seq<bool> {
    Seq::new(n as nat, |k: int| k < screen.len() && screen[k])
}

/// A colour lens cut or extended with white to `n` dots.
pub open spec fn lens_resized(lens: Seq<u8>, n: int) -> Seq<u8> {
    Seq::new(n as nat, |k: int| if k < lens.len() { lens[k] } else { WHITE })
}

/// The engine's own set-up on top of the standard one: SUPER-CHIP switches
/// to its larger display, CHIP-8X sizes its lens to the display.
pub open spec fn runtime_configured(rv: RuntimeView, s: ContextView) -> (RuntimeView, ContextView) {
    match rv {
        RuntimeView::Chip8 => (rv, s),
        RuntimeView::Chip8x(xv) => (
            RuntimeView::Chip8x(Chip8xView { lens: lens_resized(xv.lens, s.screen.len() as int), ..xv }),
            s,
        ),
        RuntimeView::SuperChip(_) => (
            rv,
            ContextView {
                width: EXTENDED_WIDTH as int,
                height: EXTENDED_HEIGHT as int,
                screen: resized(s.screen, EXTENDED_WIDTH * EXTENDED_HEIGHT),
                ..s
            },
        ),
    }
}

/// The engine's own reset on top of the context's: SUPER-CHIP clears its
/// scratch registers and display mode, CHIP-8X restores its colours and
/// starts programs at its own address.
pub open spec fn runtime_reset(rv: RuntimeView, s: ContextView) -> (RuntimeView, ContextView) {
    match rv {
        RuntimeView::Chip8 => (rv, s),
        RuntimeView::Chip8x(xv) => (
            RuntimeView::Chip8x(
                Chip8xView { background: BLACK, lens: Seq::new(xv.lens.len(), |k: int| WHITE) },
            ),
            ContextView { pc: CHIP8X_START as int, ..s },
        ),
        RuntimeView::SuperChip(_) => (
            RuntimeView::SuperChip(
                SuperChipView { scratch: Seq::new(SCRATCH_LEN as nat, |k: int| 0u8), extended: false },
            ),
            s,
        ),
    }
}

/// One instruction on the active engine and the chain it extends.
pub open spec fn runtime_step(
    rv: RuntimeView,
    s: ContextView,
    mem: Seq<u8>,
    keys: Seq<bool>,
    rnd: u8,
    w: u16,
) -> (Outcome, RuntimeView, ContextView, Seq<u8>) {
    match rv {
        RuntimeView::Chip8 => match chip8_step(s, mem, keys, rnd, w) {
            Some((t, tm)) => (Outcome::Handled, rv, t, tm),
            None => (Outcome::Unknown, rv, s, mem),
        },
        RuntimeView::Chip8x(_) => {
            let (o, t, tm) = chip8x_step(s, mem, keys, rnd, w);
            (o, rv, t, tm)
        },
        RuntimeView::SuperChip(sv) => {
            let (o, sv2, t, tm) = super_step(sv, s, mem, keys, rnd, w);
            (o, RuntimeView::SuperChip(sv2), t, tm)
        },
    }
}

/// One byte per dot: 0xFF for a lit dot, 0 otherwise.
pub open spec fn monochrome(screen: Seq<bool>) -> Seq<u8> {
    Seq::new(screen.len(), |k: int| if screen[k] { 0xFFu8 } else { 0u8 })
}

/// The framebuffer the engine makes of the display.
pub open spec fn framebuffer_of(rv: RuntimeView, screen: Seq<bool>) -> Seq<u8> {
    match rv {
        RuntimeView::Chip8x(xv) => tinted(screen, xv.lens, xv.background),
        _ => monochrome(screen),
    }
}

/// Whether the engine's own state fits the context it runs on.
pub open spec fn runtime_fits(rv: RuntimeView, s: ContextView) -> bool {
    match rv {
        RuntimeView::Chip8x(xv) => xv.lens.len() == s.screen.len(),
        _ => true,
    }
}

/// Fills the framebuffer with one byte per dot, 0xFF for lit dots.
fn update_monochrome(c: &mut Context)
    ensures
        final(c)@ == (ContextView { framebuffer: monochrome(old(c)@.screen), ..old(c)@ }),
{
    let n = c.screen.len();
    c.framebuffer.resize(n, 0);
    let mut k: usize = 0;
    while k < n
        invariant
            n == c.screen.len(),
            k <= n,
            c@ == (ContextView { framebuffer: c@.framebuffer, ..old(c)@ }),
            c.framebuffer@.len() == n,
            forall|j: int|
                0 <= j < k ==> #[trigger] c.framebuffer@[j] == if c.screen@[j] {
                    0xFFu8
                } else {
                    0u8
                },
        decreases n - k,
    {
        let value: u8 = if c.screen[k] { 0xFF } else { 0 };
        c.framebuffer.set(k, value);
        k = k + 1;
    }
    assert(c@.framebuffer =~= monochrome(old(c)@.screen));
}

impl Runtime {
    /// The engine for `mode`, in its initial state.
    pub fn for_mode(mode: Mode) -> (r: Runtime)
        ensures
            r@ == runtime_for_mode(mode),
    {
        match mode {
            Mode::Chip8x => Runtime::Chip8x(Chip8x::new()),
            Mode::SuperChip => Runtime::SuperChip(SuperChip::new()),
            _ => Runtime::Chip8(Chip8::new()),
        }
    }

    /// Where this engine loads programs and starts them.
    pub fn start(&self) -> (r: usize)
        ensures
            r == start_of(self@),
    {
        match self {
            Runtime::Chip8x(_) => CHIP8X_START,
            _ => PROGRAM_START,
        }
    }

    /// Applies the engine's own set-up to the context.
    pub fn configure(&mut self, c: &mut Context)
        ensures
            (final(self)@, final(c)@) == runtime_configured(old(self)@, old(c)@),
    {
        match self {
            Runtime::Chip8(_) => {},
            Runtime::Chip8x(e) => {
                e.configure(c);
                assert(e@.lens =~= lens_resized(old(self)@->Chip8x_0.lens, c@.screen.len() as int));
            },
            Runtime::SuperChip(e) => {
                e.configure(c);
                assert(c@.screen =~= resized(old(c)@.screen, EXTENDED_WIDTH * EXTENDED_HEIGHT));
            },
        }
    }

    /// Applies the engine's own reset to the context.
    pub fn reset(&mut self, c: &mut Context)
        ensures
            (final(self)@, final(c)@) == runtime_reset(old(self)@, old(c)@),
    {
        match self {
            Runtime::Chip8(_) => {},
            Runtime::Chip8x(e) => {
                e.reset(c);
            },
            Runtime::SuperChip(e) => {
                e.reset();
            },
        }
    }

    /// Copies a program into memory at the engine's load address.
    pub fn insert_rom(&self, m: &mut Mmu, buffer: &[u8])
        requires
            start_of(self@) + buffer@.len() <= MEMORY_SIZE,
        ensures
            final(m)@ == old(m)@.subrange(0, start_of(self@)) + buffer@ + old(m)@.subrange(
                start_of(self@) + buffer@.len(),
                MEMORY_SIZE as int,
            ),
    {
        match self {
            Runtime::Chip8x(e) => e.insert_rom(m, buffer),
            _ => m.write_all(PROGRAM_START, buffer),
        }
    }

    /// Renders the display into the context's framebuffer.
    pub fn update_framebuffer(&self, c: &mut Context)
        requires
            runtime_fits(self@, old(c)@),
        ensures
            final(c)@ == (ContextView { framebuffer: framebuffer_of(self@, old(c)@.screen), ..old(c)@ }),
    {
        match self {
            Runtime::Chip8x(e) => e.update_framebuffer(c),
            _ => update_monochrome(c),
        }
    }

    /// Executes one instruction on this engine.
    pub fn execute(
        &mut self,
        c: &mut Context,
        m: &mut Mmu,
        keys: &[bool; 16],
        random: u8,
        opcode: Opcode,
    ) -> (r: Outcome)
        requires
            old(c)@.wf(),
        ensures
            final(c)@.wf(),
            final(c)@.screen.len() == old(c)@.screen.len(),
            (r, final(self)@, final(c)@, final(m)@) == runtime_step(
                old(self)@,
                old(c)@,
                old(m)@,
                keys@,
                random,
                opcode@,
            ),
    {
        match self {
            Runtime::Chip8(e) => {
                if e.execute(c, m, keys, random, opcode) {
                    Outcome::Handled
                } else {
                    Outcome::Unknown
                }
            },
            Runtime::Chip8x(e) => e.execute(c, m, keys, random, opcode),
            Runtime::SuperChip(e) => e.execute(c, m, keys, random, opcode),
        }
    }
}

/// Instructions the frame driver runs per frame.
pub const INSTRUCTIONS_PER_FRAME: usize = 8;

/// Nanoseconds per tick of the 60 Hz timers.
pub const TIMER_PERIOD_NS: u64 = 16_666_666;

/// The mathematical state of an interpreter.
pub struct InterpreterView {
    pub context: ContextView,
    pub memory: Seq<u8>,
    pub runtime: Option<RuntimeView>,
    /// Wall-clock time that has passed and not yet been spent on a timer
    /// tick, in nanoseconds.
    pub timer_elapsed: int,
}

impl InterpreterView {
    /// A well-formed context and memory, whatever the engine.
    pub open spec fn wf_base(&self) -> bool {
        &&& self.context.wf()
        &&& self.memory.len() == MEMORY_SIZE
        &&& 0 <= self.timer_elapsed <= u64::MAX
    }

    /// A well-formed machine: the engine's state also fits the context.
    pub open spec fn wf(&self) -> bool {
        &&& self.wf_base()
        &&& self.runtime matches Some(rv) ==> runtime_fits(rv, self.context)
    }
}

/// The standard set-up: a 64x32 display (dots kept where they fit), the
/// full stack depth, the font in memory, then the engine's own set-up.
pub open spec fn configured(v: InterpreterView) -> InterpreterView {
    let base = ContextView {
        width: STANDARD_WIDTH as int,
        height: STANDARD_HEIGHT as int,
        screen: resized(v.context.screen, STANDARD_WIDTH * STANDARD_HEIGHT),
        stack_len: STACK_LEN as int,
        ..v.context
    };
    let memory = with_font(v.memory);
    match v.runtime {
        None => InterpreterView { context: base, memory, ..v },
        Some(rv) => {
            let (rv2, s2) = runtime_configured(rv, base);
            InterpreterView { context: s2, memory, runtime: Some(rv2), ..v }
        },
    }
}

/// A reset: the context cleared, the font written again, then the
/// engine's own reset.
pub open spec fn reset_state(v: InterpreterView) -> InterpreterView {
    let base = reset_view(v.context);
    let memory = with_font(v.memory);
    match v.runtime {
        None => InterpreterView { context: base, memory, ..v },
        Some(rv) => {
            let (rv2, s2) = runtime_reset(rv, base);
            InterpreterView { context: s2, memory, runtime: Some(rv2), ..v }
        },
    }
}

/// The state once the program `rom` for `mode` is in memory and its engine
/// chosen, before set-up and reset.
pub open spec fn loaded(v: InterpreterView, rom: Seq<u8>, mode: Mode) -> InterpreterView {
    let rv = runtime_for_mode(mode);
    let start = start_of(rv);
    InterpreterView {
        memory: v.memory.subrange(0, start) + rom + v.memory.subrange(start + rom.len(), MEMORY_SIZE as int),
        runtime: Some(rv),
        ..v
    }
}

/// A timer counts down by one unless it is already zero.
pub open spec fn count_down(t: u8) -> u8 {
    if t > 0 { (t - 1) as u8 } else { 0 }
}

/// The timers after `elapsed` nanoseconds: the time is added to what was
/// left over (saturating), and once a whole period has gathered both timers
/// count down once and the period is spent.
pub open spec fn ticked(v: InterpreterView, elapsed: u64) -> InterpreterView {
    let total = if v.timer_elapsed + elapsed > u64::MAX { u64::MAX as int } else { v.timer_elapsed + elapsed };
    if total >= TIMER_PERIOD_NS {
        InterpreterView {
            timer_elapsed: total - TIMER_PERIOD_NS,
            context: ContextView { dt: count_down(v.context.dt), st: count_down(v.context.st), ..v.context },
            ..v
        }
    } else {
        InterpreterView { timer_elapsed: total, ..v }
    }
}

/// The instruction word at the program counter.
pub open spec fn fetched_word(v: InterpreterView) -> u16 {
    word_of(v.memory[wrap(v.context.pc)], v.memory[wrap(v.context.pc + 1)])
}

/// One instruction: fetched at the program counter, which moves past it,
/// then executed by the active engine; an instruction that no engine knows
/// is a fault.
pub open spec fn stepped(v: InterpreterView, keys: Seq<bool>, rnd: u8) -> (Result<Outcome, Fault>, InterpreterView) {
    match v.runtime {
        None => (Err(Fault::NoProgram), v),
        Some(rv) => {
            let w = fetched_word(v);
            let s = ContextView { pc: wrap(v.context.pc + 2), ..v.context };
            let (o, rv2, t, tm) = runtime_step(rv, s, v.memory, keys, rnd, w);
            let v2 = InterpreterView { context: t, memory: tm, runtime: Some(rv2), ..v };
            if o == Outcome::Unknown {
                (Err(Fault::UnknownOpcode(w)), v2)
            } else {
                (Ok(o), v2)
            }
        },
    }
}

/// The timers advanced by `elapsed`, then one instruction.
pub open spec fn next_state(v: InterpreterView, elapsed: u64, keys: Seq<bool>, rnd: u8) -> (
    Result<Outcome, Fault>,
    InterpreterView,
) {
    if v.runtime is None {
        (Err(Fault::NoProgram), v)
    } else {
        stepped(ticked(v, elapsed), keys, rnd)
    }
}

/// One instruction per random byte of `rs`, stopping at the first fault;
/// on success, the words of the unsupported instructions met, in order.
pub open spec fn steps(v: InterpreterView, keys: Seq<bool>, rs: Seq<u8>) -> (Result<Seq<u16>, Fault>, InterpreterView)
    decreases rs.len(),
{
    if rs.len() == 0 {
        (Ok(Seq::empty()), v)
    } else {
        let (r, v1) = steps(v, keys, rs.drop_last());
        match r {
            Err(f) => (Err(f), v1),
            Ok(u) => {
                let w = fetched_word(v1);
                let (r2, v2) = stepped(v1, keys, rs.last());
                match r2 {
                    Err(f) => (Err(f), v2),
                    Ok(o) => (Ok(if o == Outcome::Unsupported { u.push(w) } else { u }), v2),
                }
            },
        }
    }
}

/// One frame: the timers advanced by `elapsed`, then one instruction per
/// random byte of `rs`.
pub open spec fn frame_state(v: InterpreterView, elapsed: u64, keys: Seq<bool>, rs: Seq<u8>) -> (
    Result<Seq<u16>, Fault>,
    InterpreterView,
) {
    if v.runtime is None {
        (Err(Fault::NoProgram), v)
    } else {
        steps(ticked(v, elapsed), keys, rs)
    }
}

/// A frame's report as a value of the model.
pub open spec fn report_view(r: Result<Vec<u16>, Fault>) -> Result<Seq<u16>, Fault> {
    match r {
        Ok(u) => Ok(u@),
        Err(f) => Err(f),
    }
}

/// A running machine: the execution context, memory, and the engine of the
/// loaded program.
pub struct Interpreter {
    context: Context,
    mmu: Mmu,
    runtime: Option<Runtime>,
    timer_elapsed: u64,
}

impl View for Interpreter {
    type V = InterpreterView;

    closed spec fn view(&self) -> InterpreterView {
        InterpreterView {
            context: self.context@,
            memory: self.mmu@,
            runtime: match self.runtime {
                Some(rt) => Some(rt@),
                None => None,
            },
            timer_elapsed: self.timer_elapsed as int,
        }
    }
}

impl Interpreter {
    /// An interpreter with no program: standard display, cleared state,
    /// zeroed memory.
    pub fn new() -> (r: Interpreter)
        ensures
            r@.wf(),
            r@.runtime is None,
            r@.memory == zeroed(),
            r@.timer_elapsed == 0,
            r@.context == reset_view(r@.context),
            r@.context.width == STANDARD_WIDTH,
            r@.context.height == STANDARD_HEIGHT,
            r@.context.stack_len == STACK_LEN,
    {
        let r = Interpreter { context: Context::new(), mmu: Mmu::new(), runtime: None, timer_elapsed: 0 };
        proof {
            r.mmu.lemma_view_len();
        }
        r
    }

    /// The execution context.
    pub fn context(&self) -> (r: &Context)
        ensures
            r@ == self@.context,
    {
        &self.context
    }

    /// Sets up the standard display, stack and font, then lets the engine
    /// apply its own set-up.
    pub fn configure(&mut self)
        requires
            old(self)@.wf_base(),
        ensures
            final(self)@ == configured(old(self)@),
            final(self)@.wf(),
    {
        self.context.screen_width = STANDARD_WIDTH;
        self.context.screen_height = STANDARD_HEIGHT;
        self.context.screen.resize(STANDARD_WIDTH * STANDARD_HEIGHT, false);
        self.context.stack_len = STACK_LEN;
        assert(self.context@.screen =~= resized(old(self)@.context.screen, STANDARD_WIDTH * STANDARD_HEIGHT));
        load_font(&mut self.mmu);
        match &mut self.runtime {
            Some(rt) => rt.configure(&mut self.context),
            None => {},
        }
        proof {
            self.mmu.lemma_view_len();
        }
    }

    /// Resets the machine: context cleared, font written again, then the
    /// engine's own reset.
    pub fn reset(&mut self)
        requires
            old(self)@.wf(),
        ensures
            final(self)@ == reset_state(old(self)@),
            final(self)@.wf(),
    {
        self.context.reset();
        load_font(&mut self.mmu);
        match &mut self.runtime {
            Some(rt) => rt.reset(&mut self.context),
            None => {},
        }
        proof {
            self.mmu.lemma_view_len();
        }
    }

    /// Loads the program `rom`, read from the file `filename`. The mode is
    /// `mode` where one is given, else the one the file's extension stands
    /// for; the engine for it is chosen, the program copied to its load
    /// address, and the machine set up and reset. A program that does not
    /// fit in memory is refused and nothing changes.
    pub fn insert_rom(&mut self, filename: &str, rom: &[u8], mode: Option<Mode>) -> (r: Result<(), Fault>)
        requires
            old(self)@.wf(),
        ensures
            final(self)@.wf(),
            ({
                let m = chosen_mode(filename@, mode);
                &&& start_of(runtime_for_mode(m)) + rom@.len() <= MEMORY_SIZE ==> r is Ok
                    && final(self)@ == reset_state(configured(loaded(old(self)@, rom@, m)))
                &&& start_of(runtime_for_mode(m)) + rom@.len() > MEMORY_SIZE ==> r == Err::<(), Fault>(
                    Fault::RomTooLarge,
                ) && final(self)@ == old(self)@
            }),
    {
        let mode = match mode {
            Some(m) => m,
            None => Mode::from_file(filename),
        };
        let runtime = Runtime::for_mode(mode);
        let start = runtime.start();
        if rom.len() > MEMORY_SIZE - start {
            return Err(Fault::RomTooLarge);
        }
        runtime.insert_rom(&mut self.mmu, rom);
        self.runtime = Some(runtime);
        proof {
            self.mmu.lemma_view_len();
        }
        self.configure();
        self.reset();
        Ok(())
    }

    /// Unloads the program: memory is zeroed and no engine remains.
    pub fn remove_rom(&mut self)
        requires
            old(self)@.wf(),
        ensures
            final(self)@ == (InterpreterView { memory: zeroed(), runtime: None, ..old(self)@ }),
            final(self)@.wf(),
    {
        self.mmu.clear();
        self.runtime = None;
    }

    /// Advances the 60 Hz timers by `elapsed_ns` nanoseconds of wall-clock
    /// time: at most one tick per call, the rest kept for later calls.
    pub fn tick_timers(&mut self, elapsed_ns: u64)
        requires
            old(self)@.wf(),
        ensures
            final(self)@ == ticked(old(self)@, elapsed_ns),
            final(self)@.wf(),
    {
        self.timer_elapsed = self.timer_elapsed.saturating_add(elapsed_ns);
        if self.timer_elapsed >= TIMER_PERIOD_NS {
            self.timer_elapsed = self.timer_elapsed - TIMER_PERIOD_NS;
            if self.context.dt > 0 {
                self.context.dt = self.context.dt - 1;
            }
            if self.context.st > 0 {
                self.context.st = self.context.st - 1;
            }
        }
    }

    /// The instruction word at the program counter.
    fn current_word(&mut self) -> (r: u16)
        requires
            old(self)@.wf(),
        ensures
            r == fetched_word(old(self)@),
            final(self)@ == old(self)@,
    {
        let mut pc = self.context.pc;
        Opcode::read_next(&mut pc, &mut self.mmu).word()
    }

    /// Fetches and executes one instruction, taking `random` as the random
    /// byte.
    fn step_with(&mut self, keys: &[bool; 16], random: u8) -> (r: Result<Outcome, Fault>)
        requires
            old(self)@.wf(),
        ensures
            (r, final(self)@) == stepped(old(self)@, keys@, random),
            final(self)@.wf(),
    {
        match &mut self.runtime {
            None => Err(Fault::NoProgram),
            Some(rt) => {
                let opcode = Opcode::read_next(&mut self.context.pc, &mut self.mmu);
                let outcome = rt.execute(&mut self.context, &mut self.mmu, keys, random, opcode);
                proof {
                    self.mmu.lemma_view_len();
                }
                match outcome {
                    Outcome::Unknown => Err(Fault::UnknownOpcode(opcode.word())),
                    _ => Ok(outcome),
                }
            },
        }
    }

    /// Advances the timers by `elapsed_ns` nanoseconds and executes the next
    /// instruction, taking `random` as the random byte. Without a program
    /// nothing happens.
    pub fn run_next_with(&mut self, elapsed_ns: u64, keys: &[bool; 16], random: u8) -> (r: Result<
        Outcome,
        Fault,
    >)
        requires
            old(self)@.wf(),
        ensures
            (r, final(self)@) == next_state(old(self)@, elapsed_ns, keys@, random),
            final(self)@.wf(),
    {
        if self.runtime.is_none() {
            return Err(Fault::NoProgram);
        }
        self.tick_timers(elapsed_ns);
        self.step_with(keys, random)
    }

    /// Advances the timers by `elapsed_ns` nanoseconds and executes the next
    /// instruction, with a fresh random byte.
    pub fn run_next(&mut self, elapsed_ns: u64, keys: &[bool; 16]) -> (r: Result<Outcome, Fault>)
        requires
            old(self)@.wf(),
        ensures
            exists|rnd: u8| (r, final(self)@) == next_state(old(self)@, elapsed_ns, keys@, rnd),
            final(self)@.wf(),
    {
        let random = random_byte();
        self.run_next_with(elapsed_ns, keys, random)
    }

    /// Runs one frame: the timers advance by `elapsed_ns` nanoseconds, then
    /// one instruction runs per byte of `randoms`, each taking that byte as
    /// its random byte, until one faults. Returns the words of the
    /// unsupported instructions met.
    pub fn run_frame_with(
        &mut self,
        elapsed_ns: u64,
        keys: &[bool; 16],
        randoms: &[u8; 8],
    ) -> (r: Result<Vec<u16>, Fault>)
        requires
            old(self)@.wf(),
        ensures
            (report_view(r), final(self)@) == frame_state(old(self)@, elapsed_ns, keys@, randoms@),
            final(self)@.wf(),
    {
        if self.runtime.is_none() {
            return Err(Fault::NoProgram);
        }
        self.tick_timers(elapsed_ns);
        let ghost start = self@;
        let mut unsupported: Vec<u16> = Vec::new();
        let mut k: usize = 0;
        while k < INSTRUCTIONS_PER_FRAME
            invariant
                k <= INSTRUCTIONS_PER_FRAME,
                self@.wf(),
                randoms@.len() == INSTRUCTIONS_PER_FRAME,
                start == ticked(old(self)@, elapsed_ns),
                old(self)@.runtime is Some,
                steps(start, keys@, randoms@.take(k as int)) == (
                    Ok::<Seq<u16>, Fault>(unsupported@),
                    self@,
                ),
            decreases INSTRUCTIONS_PER_FRAME - k,
        {
            let w = self.current_word();
            let ghost before = self@;
            let r = self.step_with(keys, randoms[k]);
            assert(randoms@.take(k + 1).drop_last() =~= randoms@.take(k as int));
            assert(randoms@.take(k + 1).last() == randoms@[k as int]);
            assert(stepped(before, keys@, randoms@[k as int]) == (r, self@));
            match r {
                Err(f) => {
                    assert(steps(start, keys@, randoms@.take(k + 1)) == (
                        Err::<Seq<u16>, Fault>(f),
                        self@,
                    ));
                    proof {
                        lemma_steps_fault(start, keys@, randoms@, k as int + 1, f);
                    }
                    assert(steps(start, keys@, randoms@) == (Err::<Seq<u16>, Fault>(f), self@));
                    assert(frame_state(old(self)@, elapsed_ns, keys@, randoms@) == steps(start, keys@, randoms@));
                    return Err(f);
                },
                Ok(o) => {
                    if o == Outcome::Unsupported {
                        unsupported.push(w);
                    }
                },
            }
            k = k + 1;
        }
        assert(randoms@.take(8) =~= randoms@);
        Ok(unsupported)
    }

    /// Runs one frame with fresh random bytes: the timers advance by
    /// `elapsed_ns` nanoseconds, then the instructions of the frame run
    /// until one faults. Returns the words of the unsupported instructions
    /// met.
    pub fn run_frame(&mut self, elapsed_ns: u64, keys: &[bool; 16]) -> (r: Result<Vec<u16>, Fault>)
        requires
            old(self)@.wf(),
        ensures
            exists|rs: Seq<u8>|
                rs.len() == INSTRUCTIONS_PER_FRAME && (report_view(r), final(self)@) == frame_state(
                    old(self)@,
                    elapsed_ns,
                    keys@,
                    rs,
                ),
            final(self)@.wf(),
    {
        let randoms: [u8; 8] = [
            random_byte(),
            random_byte(),
            random_byte(),
            random_byte(),
            random_byte(),
            random_byte(),
            random_byte(),
            random_byte(),
        ];
        let r = self.run_frame_with(elapsed_ns, keys, &randoms);
        assert(randoms@.len() == INSTRUCTIONS_PER_FRAME);
        r
    }

    /// Renders the display into the framebuffer and returns it with the
    /// display's width and height. Without a program the framebuffer is
    /// left as it was.
    pub fn screen_as_framebuffer(&mut self) -> (r: (&[u8], usize, usize))
        requires
            old(self)@.wf(),
        ensures
            final(self)@.wf(),
            final(self)@ == (InterpreterView {
                context: ContextView {
                    framebuffer: match old(self)@.runtime {
                        Some(rv) => framebuffer_of(rv, old(self)@.context.screen),
                        None => old(self)@.context.framebuffer,
                    },
                    ..old(self)@.context
                },
                ..old(self)@
            }),
            r.0@ == final(self)@.context.framebuffer,
            r.1 == final(self)@.context.width,
            r.2 == final(self)@.context.height,
    {
        match &self.runtime {
            Some(rt) => rt.update_framebuffer(&mut self.context),
            None => {},
        }
        (self.context.framebuffer.as_slice(), self.context.screen_width, self.context.screen_height)
    }
}

/// With a leftover below one period, a call after exactly one period
/// counts each timer down by one (stopping at zero) and keeps the same
/// leftover, so evenly spaced calls never skip a tick.
pub proof fn lemma_timers_exact_period(v: InterpreterView)
    requires
        v.wf(),
        v.timer_elapsed < TIMER_PERIOD_NS,
    ensures
        ticked(v, TIMER_PERIOD_NS).context.dt == count_down(v.context.dt),
        ticked(v, TIMER_PERIOD_NS).context.st == count_down(v.context.st),
        ticked(v, TIMER_PERIOD_NS).timer_elapsed == v.timer_elapsed,
        ticked(v, TIMER_PERIOD_NS).context.dt <= v.context.dt,
{
}

/// Once a step within the frame faults, the frame ends there with that
/// fault: later random bytes are never used.
proof fn lemma_steps_fault(v: InterpreterView, keys: Seq<bool>, rs: Seq<u8>, k: int, f: Fault)
    requires
        0 <= k <= rs.len(),
        steps(v, keys, rs.take(k)).0 == Err::<Seq<u16>, Fault>(f),
    ensures
        steps(v, keys, rs) == steps(v, keys, rs.take(k)),
    decreases rs.len() - k,
{
    if k < rs.len() {
        assert(rs.take(k + 1).drop_last() =~= rs.take(k));
        lemma_steps_fault(v, keys, rs, k + 1, f);
        assert(rs.take(rs.len() as int) =~= rs);
    } else {
        assert(rs.take(k) =~= rs);
    }
}

} // verus!

//! An interpreter for the CHIP-8 family of virtual machines (CHIP-8,
//! CHIP-8X, SUPER-CHIP), verified with Verus.
//!
//! The core is a pure step relation: each instruction is decoded from
//! memory, handed to the active variant engine, and applied to the
//! execution context and the memory unit. Every engine's behaviour is
//! stated as a spec function over mathematical views of the state, and
//! the executable code is proved to follow it.

pub mod mmu;
pub mod opcode;
pub mod context;
pub mod display;
pub mod chip_8;
pub mod super_chip;
pub mod chip_8x;
pub mod font;
pub mod interpreter;

pub use mmu::Mmu;
pub use mmu::MEMORY_SIZE;
pub use opcode::Opcode;
pub use context::{Context, ContextView};
pub use chip_8::Chip8;
pub use super_chip::SuperChip;
pub use interpreter::{Fault, Interpreter, Mode, Outcome, Runtime};
pub use chip_8x::Chip8x;

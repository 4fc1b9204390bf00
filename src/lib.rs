//! An interpreter core for a 16-bit-opcode virtual machine with 4 KiB of
//! memory, sixteen 8-bit registers, a 16-deep call stack, a 64 x 32
//! monochrome framebuffer and a 16-key hex keypad.
//!
//! - `decode`: operand extraction from an instruction word.
//! - `semantics`: the machine state as mathematical values and what each
//!   instruction does to it; every executable operation is specified here.
//! - `machine`: the executable machine, its host accessors and the engine.
//! - `laws`: properties across instructions and calls, proved.
//!
//! Policies where the architecture leaves a choice: a call on a full stack,
//! a return on an empty one and an unknown instruction word stop the
//! instruction with a `Fault` and change nothing; memory addresses past the
//! end wrap to the start; the key named by a register is its low nibble.
#![allow(non_snake_case)]

pub mod decode;
pub mod laws;
mod machine;
pub mod semantics;

pub use decode::{_get_kk, _get_last, _get_nnn, _get_x, _get_y};
pub use machine::Chip8;
pub use semantics::{Fault, Progress};

//! An interpreter for the CHIP-8 virtual machine.
//!
//! The [`processor::Processor`] owns the registers, memory, call stack,
//! timers and framebuffer, and executes one fetch-decode-execute cycle per
//! call. Key input is handed in as plain values ([`keys::KeyState`]), and the
//! framebuffer and the cycle signals are handed back for a front end to show.
use vstd::prelude::*;

pub mod font;
pub mod keys;
pub mod laws;
pub mod processor;
pub mod random;

pub use keys::KeyState;
pub use processor::{Fault, Processor, Signals};

verus! {

/// Size in bytes of one instruction.
pub const OPCODE_SIZE: usize = 2;

/// Size in bytes of the addressable memory.
pub const CHIP8_RAM: usize = 4096;

/// Width of the framebuffer in pixels.
pub const CHIP8_SCREEN_WIDTH: usize = 64;

/// Height of the framebuffer in pixels.
pub const CHIP8_SCREEN_HEIGHT: usize = 32;

/// Number of cells of the framebuffer, stored row after row.
pub const CHIP8_SCREEN_CELLS: usize = 2048;

/// Address at which programs are loaded and execution starts.
pub const PROGRAM_START: usize = 0x200;

/// Largest program that fits between `PROGRAM_START` and the end of memory.
pub const PROGRAM_CAPACITY: usize = 3584;

/// Depth of the call stack.
pub const STACK_DEPTH: usize = 16;

} // verus!

//! A CHIP-8 interpreter core: memory, registers, call stack, timers, keypad and
//! a 64x32 monochrome framebuffer, stepped one instruction at a time.
//!
//! Every operation is specified over the mathematical model in [`model`]: the
//! executable machine [`Emu`] views as a [`MachineState`], and each public method
//! states its effect through the spec functions found there.
pub mod model;
pub mod emu;
pub mod laws;

pub use model::{Fault, Instr, MachineState, SCREEN_HEIGHT, SCREEN_WIDTH};
pub use emu::{decode, Emu};

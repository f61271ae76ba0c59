//! A CHIP-8 virtual machine: a 4 KiB memory, a 64x32 monochrome display, a
//! sixteen-key keypad and the processor that drives them.
//!
//! Every operation has a contract over a mathematical model of the machine,
//! and a malformed program is answered with a [`fault::Fault`] rather than a
//! panic.

pub mod fault;
pub mod memory;
pub mod display;
pub mod keyboard;
pub mod bus;
pub mod isa;
pub mod random;
pub mod cpu;
pub mod chip8;
pub mod system;

//! A CHIP-8 virtual machine with verified instruction semantics.
//!
//! The interpreter models the classic CHIP-8: 4096 bytes of memory, sixteen
//! 8-bit registers, a sixteen-entry call stack, two countdown timers, a
//! sixteen-key input pad and a 64x32 monochrome display. Every instruction
//! handler is verified against a mathematical transition function over a
//! ghost view of the machine state.

pub mod cpu;
pub mod decode;
pub mod display;
pub mod fill;
pub mod laws;
pub mod semantics;

//! A verified CHIP-8 virtual machine core.
//!
//! The crate models the classic CHIP-8 interpreter: 4096 bytes of memory,
//! sixteen 8-bit registers, a 16-slot call stack, two 60Hz timers, a 64x32
//! monochrome framebuffer and a 16-key input vector. The driver advances the
//! machine with `step` (one fetch-decode-execute round) and `tick_timers`
//! (one timer decrement); both are specified against a mathematical view of
//! the machine state and every instruction's effect is pinned down exactly.

pub mod chip8;
pub mod font;
pub mod isa;
pub mod draw;
pub mod exec;
pub mod laws;

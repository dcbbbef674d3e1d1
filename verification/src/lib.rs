//! A verified interpreter core for the CHIP-8 fantasy instruction set.
//!
//! The crate models the machine exactly: a 4096-byte memory preloaded with a
//! glyph font and a program, a pure instruction decoder, a 64x32 monochrome
//! framebuffer with XOR sprite drawing and collision reporting, and a CPU that
//! owns the registers, call stack, timers and program counter. The host drives
//! the machine by calling `cycle` with keyboard snapshots and `update_timers`
//! at 60 Hz; rendering and input mapping stay outside the core.

pub mod cpu;
pub mod instruction;
pub mod memory;
pub mod screen;

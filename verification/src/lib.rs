//! A verified interpreter core for a small fixed-instruction-set computer:
//! a byte-addressable memory, a register file, a call stack, two countdown
//! timers, and a monochrome bitmap display, driven by a fetch-decode-execute
//! loop over a binary program loaded into memory.

pub mod cpu;
pub mod memory;
pub mod stack;
pub mod timer;

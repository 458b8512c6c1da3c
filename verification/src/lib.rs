//! A verified CHIP-8 virtual machine.
//!
//! The crate splits into a total, pure instruction decoder and a machine that
//! owns all interpreter state. Every operation carries a contract over a
//! mathematical view of that state: each of the instruction handlers, the
//! fetch-decode-execute step, the 60Hz timer tick and the ROM loader state
//! exactly how the new state relates to the old one, and the fatal bounds
//! conditions (stack overflow and underflow, memory accesses at or beyond
//! 4096) are reported as errors that leave the machine untouched.

pub mod instruction;
pub mod vm;

//! A CHIP-8 virtual machine: fixed-size memory, register file, stack, timers,
//! and a monochrome bitmap display, driven by a fetch-decode-execute loop over
//! a 2-byte instruction set.

pub mod device;
pub mod laws;
pub mod model;
pub mod util;

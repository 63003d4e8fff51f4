//! Emulation of a PS/2 device (keyboard and mouse) on the transmit side:
//! framing of scancodes into 11-bit words, the micro-program that clocks
//! those words out on a clock/data pin pair, and a cycle-level model of the
//! two channels that run it.

pub mod frame;
pub mod program;
pub mod queue;
pub mod channel;
pub mod device;

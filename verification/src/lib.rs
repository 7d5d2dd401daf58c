//! A verified interpreter for a fixed 35-opcode, 16-bit instruction set
//! operating on 4 KiB of memory, sixteen 8-bit registers, a 16-slot call
//! stack, a 64x32 monochrome framebuffer, and two countdown timers.
pub mod cpu;
pub mod laws;

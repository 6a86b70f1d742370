//! An interpreter for the classic 8-bit hexadecimal virtual machine:
//! 4096 bytes of memory, sixteen 8-bit registers, a 16-entry call stack,
//! two countdown timers, a 64x32 monochrome framebuffer and a 16-key
//! input matrix. Every instruction handler carries a contract that pins
//! down the machine state it produces.

pub mod decode;
pub mod opcodes;
pub mod screen;
pub mod vm;

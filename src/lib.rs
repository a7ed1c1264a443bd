//! A CHIP-8 virtual machine: instruction decoding, execution, and the
//! monochrome framebuffer that the draw instructions composite onto.

pub mod display;
pub mod emulator;
pub mod keypad;
pub mod machine;
pub mod opcode;

//! A CHIP-8 virtual machine: the state of the machine, its instruction set,
//! the sprite drawing of its display and its key latches, with what the host
//! program needs around it.

pub mod args;
pub mod bitmap;
pub mod color;
pub mod cpu;
mod entropy;
pub mod keys;
pub mod laws;
pub mod machine;

pub use crate::args::Args;
pub use crate::cpu::Chip8;
pub use crate::keys::KeyMask;

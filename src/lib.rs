//! A CHIP-8 virtual machine: instruction decoding and execution, a toroidal
//! monochrome framebuffer, a delay timer and a sixteen-key keypad.

pub mod cpu;
pub mod display;
pub mod emulator;
pub mod instruction;
pub mod keyboard;
pub mod timer;

pub use cpu::{Cpu, CpuError};
pub use display::DisplayFrame;
pub use emulator::Emulator;
pub use instruction::Instruction;
pub use keyboard::Keyboard;
pub use timer::Timer;

//! A CHIP-8 virtual machine: memory, registers, timers, keypad and display,
//! and the instruction set that runs on them.
pub mod beep;
pub mod cpu;
pub mod cycle;
pub mod decode_laws;
pub mod draw;
pub mod emulator;
pub mod games;
pub mod hexview;
pub mod instructions;
pub mod laws;
pub mod model;
pub mod pacing;
pub mod peripherals;
mod random;

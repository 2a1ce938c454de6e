//! A CHIP-8 virtual machine: memory, display, keypad, and a CPU whose
//! fetch/decode/execute cycle is specified against a mathematical model.

pub mod bus;
pub mod cpu;
pub mod display;
pub mod instruction;
pub mod keypad;
pub mod proofs;
pub mod ram;

//! A CHIP-8 virtual machine: an instruction decoder and an interpreter whose
//! behaviour is stated over mathematical models and proved.
pub mod cpu;
pub mod display;
pub mod input;
pub mod opcodes;

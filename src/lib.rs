//! A CHIP-8 virtual machine with machine-checked instruction semantics.
//!
//! - `chip8`: the machine state, reset, program loading, the fetch-execute
//!   cycle, timers and keypad, and the abstract model (`Vm`, `apply`,
//!   `cycle_spec`) that every contract is stated over.
//! - `opcodes`: decoding of 16-bit opcodes into `Instruction`s.
//! - `opcode_parser`: execution of instructions, proved against `apply`.
//! - `display`: the 64x32 frame buffer and the wrapping XOR sprite blit.
//! - `font`: the built-in hexadecimal font.
//! - `timing`: pacing of the 60 Hz timers against the instruction rate.
//! - `semantics`: laws of the instruction set proved over the model.
//! - `input`, `render`, `args`: keyboard layout, RGBA conversion of the
//!   frame buffer and run-time options for a front end.

pub mod args;
pub mod chip8;
pub mod display;
pub mod font;
pub mod input;
pub mod opcode_parser;
pub mod opcodes;
pub mod render;
pub mod semantics;
pub mod timing;

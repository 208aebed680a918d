//! A CHIP-8 interpreter core: memory, display, instruction decoding and
//! the fetch-decode-execute CPU, with machine-checked contracts for each
//! operation's semantics.
//!
//! The host drives the core by calling [`cpu::CPU::step`] once per
//! instruction, handing it the entropy and key snapshot that the random
//! and key-conditional instructions consume, and renders the read-only
//! display between steps.

pub mod bit_operations;
pub mod cpu;
pub mod error;
pub mod instruction;
pub mod ram;
pub mod screen;
pub mod views;

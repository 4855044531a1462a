//! Translator from stack-machine VM code to assembly for a 16-bit register
//! machine.
//!
//! - `parser`: VM source lines to `Command`s, with the line grammar as a spec.
//! - `code_writer`: the instruction sequence of each command, stated exactly,
//!   and the translation state (unit name, label counters, function scope).
//! - `translator`: a whole source unit through one code writer.
//! - `machine`: a model of the target machine, and what the emitted stack,
//!   call and return sequences do on it.
//! - `laws`: label uniqueness and the advance of the counters.
//! - `chars`: whitespace, words, numerals and decimal rendering.

pub mod chars;
pub mod code_writer;
pub mod laws;
pub mod machine;
pub mod parser;
pub mod translator;

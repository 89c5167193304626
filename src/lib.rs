//! Translator from the stack-based VM language to Hack-style assembly.
//!
//! The translation engine is fully verified: the tokenizer and classifier turn
//! raw source lines into typed commands, and the code generator maps each
//! command to an assembly fragment whose instructions are stated exactly in
//! terms of a model of the target machine (`hack`).
pub use unit::{gen_asm, gen_init_asm};

pub mod code;
pub mod codegen;
pub mod frags;
pub mod hack;
pub mod laws;
pub mod line;
pub mod parser;
pub mod unit;

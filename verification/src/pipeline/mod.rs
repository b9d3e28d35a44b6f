//! The stages, and what holds of them.

pub mod checker;
pub mod formatter;
pub mod interpreter;
pub mod legible;
pub mod llvm;
pub mod optimizer;
pub mod parser;
pub mod round_trip;
pub mod soundness;
pub mod tokenizer;

//! The basic data structures that the stages exchange.

pub mod ast;
pub mod float;
pub mod identified;
pub mod meta;
pub mod precedence;
pub mod span;
pub mod token;

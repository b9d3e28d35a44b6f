//! What a stage hands to the next one.

pub mod ast;
pub mod checked_ast;
pub mod scope;
pub mod source;
pub mod token_stream;

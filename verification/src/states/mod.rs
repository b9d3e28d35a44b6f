//! The states that a program passes through on its way through the stages.
//!
//! Each state owns what the stages before it produced, and its methods are
//! the stages that can come next.

pub mod checked_state;
pub mod input_state;
pub mod parsed_state;
pub mod raw_input;
pub mod text_context;
pub mod tokenized_state;

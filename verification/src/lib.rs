//! A small compiler for a calculator language: assignments, `print`, and
//! arithmetic on integers, floating-point numbers and tuples.
//!
//! A program passes through the stages of [`pipeline`] in order: the
//! tokenizer, a backtracking recursive-descent parser, the type checker, and
//! optionally the optimizer, which folds arithmetic on literals. Two back ends
//! take the typed program: an interpreter, and a generator of textual SSA
//! code. A formatter writes a program back as source text. The stages hand
//! each other the [`states`].
//!
//! Every stage is an executable function with a contract. The contract is
//! stated against a function of the mathematical kind that says what the
//! stage yields: [`pipeline::tokenizer::lex`] for the tokens of a text,
//! [`pipeline::parser::program_at`] for the grammar,
//! [`pipeline::checker::typed_expr`] for the typing rules, and so on. On
//! top of these stand theorems about the stages together:
//!
//! - what the formatter writes is read back as the same program
//!   ([`pipeline::legible::source_reads_back`]);
//! - folding keeps the types and changes nothing that a program does
//!   ([`pipeline::optimizer::folding_keeps_type`],
//!   [`pipeline::interpreter::folding_keeps_run`]);
//! - a program that has passed the type checker meets no unknown variable
//!   and no mismatched operands in either back end
//!   ([`pipeline::soundness::checked_program_runs`],
//!   [`pipeline::soundness::checked_program_compiles`]).
//!
//! # Floating-point numbers
//!
//! The library computes with integers only. No decision of any stage depends
//! on the value of a floating-point number, so such a number is carried as
//! the expression that denotes it ([`data::float::FloatExpr`]): a literal of
//! the source text, or arithmetic on such expressions. Whatever a stage
//! writes is a [`text::Text`], in which a floating-point number takes the
//! place of its digits; who needs the digits evaluates the expression in
//! double precision. Where every number of a text is a literal,
//! [`text::Text::written`] gives the text with each as it was read.
//!
//! # Errors
//!
//! Every stage stops at its first error ([`errors`]). Besides the errors of
//! the language there are those of its arithmetic: an integer literal, a sum,
//! a difference, a product or a quotient that does not fit in 32 bits, and a
//! division by zero. The optimizer leaves such an operation as it is, and the
//! interpreter reports it.

pub mod context;
pub mod data;
pub mod errors;
pub mod pipeline;
pub mod states;
pub mod text;

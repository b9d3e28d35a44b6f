//! The state after the type checker, in which every node has a type.

use crate::context::ast::Ast;
use crate::context::checked_ast::CheckedAst;
use crate::context::source::Source;
use crate::context::token_stream::TokenStream;
use crate::data::span::Span;
use crate::errors::{CodegenError, InterpreterError};
use crate::pipeline::formatter::program_text;
use crate::pipeline::interpreter::{interpret, interpreted};
use crate::pipeline::llvm::{generated, llvm_codegen};
use crate::pipeline::optimizer::{folded_program, optimize_program};
use crate::text::Text;
use vstd::prelude::*;

verus! {

pub struct CheckedState {
    pub source: Source,
    pub token_stream: TokenStream,
    pub raw_ast: Ast<Span>,
    pub ast: CheckedAst,
}

impl CheckedState {
    /// Folds the arithmetic on literals.
    pub fn optimize(self) -> (state: CheckedState)
        ensures
            state.source == self.source,
            state.token_stream == self.token_stream,
            state.raw_ast == self.raw_ast,
            state.ast.model() == folded_program(self.ast.model()),
    {
        CheckedState {
            source: self.source,
            token_stream: self.token_stream,
            raw_ast: self.raw_ast,
            ast: Ast { stmts: optimize_program(self.ast.stmts) },
        }
    }

    /// Appends the text of the program to `out`.
    pub fn format(&self, out: &mut Text)
        ensures
            final(out)@ == old(out)@ + program_text(self.ast.model()),
    {
        crate::pipeline::formatter::format(&self.ast, out)
    }

    /// Runs the program: appends to `out` what it prints, up to the first
    /// error, and returns that error if there is one.
    pub fn interpret(&self, out: &mut Text) -> (result: Result<(), InterpreterError>)
        ensures
            old(out)@.len() <= final(out)@.len(),
            final(out)@.take(old(out)@.len() as int) == old(out)@,
            interpreted(self.ast.stmts@, final(out)@.skip(old(out)@.len() as int), result),
    {
        interpret(&self.ast.stmts, out)
    }

    /// Appends the module of the program to `out`, or returns the error
    /// that stops the generator and writes nothing.
    pub fn llvm_codegen(&self, out: &mut Text) -> (result: Result<(), CodegenError>)
        ensures
            old(out)@.len() <= final(out)@.len(),
            final(out)@.take(old(out)@.len() as int) == old(out)@,
            generated(self.ast.stmts@, final(out)@.skip(old(out)@.len() as int), result),
    {
        llvm_codegen(&self.ast.stmts, out)
    }
}

} // verus!

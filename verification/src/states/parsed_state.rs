//! The state after the parser.

use crate::context::ast::Ast;
use crate::context::checked_ast::TypeInfo;
use crate::context::source::Source;
use crate::context::token_stream::TokenStream;
use crate::data::ast::StmtModel;
use crate::data::span::Span;
use crate::errors::{CheckerError, ErrorModel};
use crate::pipeline::checker::{check_program, typed_program};
use crate::pipeline::formatter::program_text;
use crate::states::checked_state::CheckedState;
use crate::text::Text;
use vstd::prelude::*;

verus! {

pub struct ParsedState {
    pub source: Source,
    pub token_stream: TokenStream,
    pub raw_ast: Ast<Span>,
}

impl ParsedState {
    /// Appends the text of the program to `out`.
    pub fn format(&self, out: &mut Text)
        ensures
            final(out)@ == old(out)@ + program_text(self.raw_ast.model()),
    {
        crate::pipeline::formatter::format(&self.raw_ast, out)
    }

    /// Checks the types of the program.
    pub fn check(self) -> (result: Result<CheckedState, CheckerError>)
        ensures
            match result {
                Ok(state) => {
                    &&& state.source == self.source
                    &&& state.token_stream == self.token_stream
                    &&& state.raw_ast == self.raw_ast
                    &&& typed_program(self.raw_ast.model()) == Ok::<_, ErrorModel>(
                        state.ast.model(),
                    )
                },
                Err(e) => typed_program(self.raw_ast.model()) == Err::<
                    Seq<StmtModel<TypeInfo>>,
                    _,
                >(e.model()),
            },
    {
        match check_program(&self.raw_ast.stmts) {
            Ok(stmts) => Ok(
                CheckedState {
                    source: self.source,
                    token_stream: self.token_stream,
                    raw_ast: self.raw_ast,
                    ast: Ast { stmts },
                },
            ),
            Err(e) => Err(e),
        }
    }
}

} // verus!

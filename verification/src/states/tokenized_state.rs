//! The state after the tokenizer.

use crate::context::ast::Ast;
use crate::context::source::Source;
use crate::context::token_stream::TokenStream;
use crate::data::ast::StmtModel;
use crate::data::span::Span;
use crate::data::token::Token;
use crate::errors::error_message::{extract, ErrorSpan, Spanned};
use crate::errors::{ErrorModel, ParserError};
use crate::pipeline::parser::{parse_tokens, program_of};
use crate::states::parsed_state::ParsedState;
use vstd::prelude::*;

verus! {

pub struct TokenizedState {
    pub source: Source,
    pub token_stream: TokenStream,
}

impl TokenizedState {
    pub fn tokens(&self) -> (tokens: &Vec<Token>)
        ensures
            *tokens == self.token_stream.tokens,
    {
        self.token_stream.tokens()
    }

    /// The extract of the source text that shows the range.
    pub fn error_context(&self, span: Span) -> (shown: ErrorSpan)
        ensures
            shown@ == extract(self.source@, span),
    {
        span.to_error(&self.source)
    }

    /// Reads the program that the tokens spell.
    pub fn parse(self) -> (result: Result<ParsedState, ParserError>)
        ensures
            match result {
                Ok(state) => {
                    &&& state.source == self.source
                    &&& state.token_stream == self.token_stream
                    &&& program_of(self.token_stream@) == Ok::<_, ErrorModel>(state.raw_ast.model())
                },
                Err(e) => program_of(self.token_stream@) == Err::<Seq<StmtModel<Span>>, _>(
                    e.model(),
                ),
            },
    {
        match parse_tokens(self.token_stream.tokens()) {
            Ok(stmts) => Ok(
                ParsedState {
                    source: self.source,
                    token_stream: self.token_stream,
                    raw_ast: Ast { stmts },
                },
            ),
            Err(e) => Err(e),
        }
    }
}

} // verus!

//! The state before any stage: a source text.

use crate::context::source::Source;
use crate::context::token_stream::TokenStream;
use crate::data::token::TokenModel;
use crate::errors::{ErrorModel, TokenizerError};
use crate::pipeline::tokenizer::{tokenize_text, tokens_of};
use crate::states::tokenized_state::TokenizedState;
use vstd::prelude::*;

verus! {

pub struct InputState {
    pub source: Source,
}

impl InputState {
    /// The state that holds `text`.
    pub fn from(text: String) -> (state: InputState)
        ensures
            state.source@ == text@,
    {
        InputState { source: Source::new(text) }
    }

    pub fn source(&self) -> (text: &str)
        ensures
            text@ == self.source@,
    {
        self.source.source()
    }

    /// Reads the tokens of the source text.
    pub fn tokenize(self) -> (result: Result<TokenizedState, TokenizerError>)
        requires
            self.source@.len() < usize::MAX,
        ensures
            match result {
                Ok(state) => state.source == self.source && tokens_of(self.source@) == Ok::<
                    _,
                    ErrorModel,
                >(state.token_stream@),
                Err(e) => tokens_of(self.source@) == Err::<Seq<TokenModel>, _>(e.model()),
            },
    {
        match tokenize_text(self.source.source()) {
            Ok(tokens) => Ok(
                TokenizedState { source: self.source, token_stream: TokenStream { tokens } },
            ),
            Err(e) => Err(e),
        }
    }
}

} // verus!

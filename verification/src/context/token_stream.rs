//! The tokens of a source text, in the order in which they were read.

use crate::data::token::{tokens_model, Token, TokenModel};
use vstd::prelude::*;

verus! {

pub struct TokenStream {
    pub tokens: Vec<Token>,
}

impl View for TokenStream {
    type V = Seq<TokenModel>;

    open spec fn view(&self) -> Seq<TokenModel> {
        tokens_model(self.tokens@)
    }
}

impl Default for TokenStream {
    fn default() -> (stream: TokenStream)
        ensures
            stream.tokens@ == Seq::<Token>::empty(),
    {
        TokenStream { tokens: Vec::new() }
    }
}

impl TokenStream {
    pub fn tokens(&self) -> (tokens: &Vec<Token>)
        ensures
            *tokens == self.tokens,
    {
        &self.tokens
    }

    pub fn push_token(&mut self, token: Token)
        ensures
            final(self).tokens@ == old(self).tokens@.push(token),
    {
        self.tokens.push(token);
    }
}

} // verus!

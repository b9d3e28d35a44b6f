//! A text as it came in.

use crate::data::span::Span;
use crate::errors::error_context::ErrorContext;
use crate::errors::error_message::extract;
use crate::states::text_context::TextContext;
use vstd::prelude::*;

verus! {

pub struct RawInput {
    pub text_ctx: TextContext,
}

impl RawInput {
    /// The input that holds `text`.
    pub fn from(text: String) -> (input: RawInput)
        ensures
            input.text_ctx@ == text@,
    {
        RawInput { text_ctx: TextContext(text) }
    }

    pub fn source(&self) -> (text: &str)
        ensures
            text@ == self.text_ctx@,
    {
        self.text_ctx.source()
    }

    /// The extract of the text that shows the range.
    pub fn error_context(&self, span: Span) -> (context: ErrorContext)
        ensures
            context@ == extract(self.text_ctx@, span),
    {
        self.text_ctx.error_context(Some(span))
    }
}

} // verus!

//! A text, for the extracts that errors show.

use crate::data::span::Span;
use crate::errors::error_context::ErrorContext;
use crate::errors::error_message::{extract, source_extract};
use vstd::prelude::*;

verus! {

pub struct TextContext(pub String);

impl View for TextContext {
    type V = Seq<char>;

    open spec fn view(&self) -> Seq<char> {
        self.0@
    }
}

/// The extract of a text for a range, if there is one: nothing shows where
/// no range is known.
pub open spec fn context_of(text: Seq<char>, span: Option<Span>) -> Seq<char> {
    match span {
        Some(span) => extract(text, span),
        None => Seq::empty(),
    }
}

impl TextContext {
    pub fn source(&self) -> (text: &str)
        ensures
            text@ == self@,
    {
        self.0.as_str()
    }

    /// The extract of the text that shows the range.
    pub fn error_context(&self, span: Option<Span>) -> (context: ErrorContext)
        ensures
            context@ == context_of(self@, span),
    {
        match span {
            Some(span) => ErrorContext::new(source_extract(self.source(), span)),
            None => ErrorContext::new(String::new()),
        }
    }
}

} // verus!

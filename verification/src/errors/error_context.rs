//! The text that is shown with an error.

use vstd::prelude::*;

verus! {

/// An extract of the source text with the place of an error underlined,
/// ready to be shown.
#[derive(Debug, Clone, Default, PartialEq)]
pub struct ErrorContext(pub String);

impl View for ErrorContext {
    type V = Seq<char>;

    open spec fn view(&self) -> Seq<char> {
        self.0@
    }
}

impl ErrorContext {
    pub fn new(text: String) -> (context: ErrorContext)
        ensures
            context@ == text@,
    {
        ErrorContext(text)
    }

    /// The extract, as it is shown: after two line feeds, and followed by one.
    pub fn to_string(&self) -> (shown: String)
        ensures
            shown@ == seq!['\n', '\n'] + self@ + seq!['\n'],
    {
        let mut shown = String::new();
        crate::text::push_char(&mut shown, '\n');
        crate::text::push_char(&mut shown, '\n');
        shown.append(self.0.as_str());
        crate::text::push_char(&mut shown, '\n');
        assert(shown@ =~= seq!['\n', '\n'] + self@ + seq!['\n']);
        shown
    }
}

} // verus!

//! The source text.

use vstd::prelude::*;

verus! {

pub struct Source(pub String);

impl View for Source {
    type V = Seq<char>;

    open spec fn view(&self) -> Seq<char> {
        self.0@
    }
}

impl Source {
    pub fn new(source: String) -> (s: Source)
        ensures
            s@ == source@,
            s.0 == source,
    {
        Source(source)
    }

    pub fn source(&self) -> (text: &str)
        ensures
            text@ == self@,
    {
        self.0.as_str()
    }
}

} // verus!

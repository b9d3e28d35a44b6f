//! The pair of a thing and what a stage knows about it.

use crate::data::span::Span;
use vstd::prelude::*;

verus! {

/// A token or a node of a syntax tree: what it is (`kind`), and what the
/// stage that made it recorded about it (`meta`).
#[derive(Debug, PartialEq)]
pub struct Meta<K, I> {
    pub kind: K,
    pub meta: I,
}

impl<K> Meta<K, Span> {
    /// The source range that a token or a freshly parsed node covers.
    pub fn span(&self) -> (span: Span)
        ensures
            span == self.meta,
    {
        self.meta
    }
}

} // verus!

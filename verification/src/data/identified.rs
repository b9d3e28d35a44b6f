//! The pair of a thing and the identifier it was given.

use vstd::prelude::*;

verus! {

/// Something that carries an identifier. The identifier has a type of its
/// own, so that the identifier of one family of things cannot be used to look
/// up another.
#[derive(Debug, Clone, Copy, PartialEq, Default)]
pub struct Identified<K, I> {
    pub kind: K,
    pub id: I,
}

impl<K, I> Identified<K, I> {
    pub fn new(kind: K, id: I) -> (identified: Self)
        ensures
            identified.kind == kind,
            identified.id == id,
    {
        Identified { kind, id }
    }

    pub fn kind(&self) -> (kind: &K)
        ensures
            *kind == self.kind,
    {
        &self.kind
    }
}

} // verus!

//! The one namespace of a program.
//!
//! The language has no blocks: every variable lives in the same scope, and
//! an assignment replaces what the name stood for.

use vstd::prelude::*;

verus! {

/// The map that a list of bindings stands for: a later binding of a name
/// replaces an earlier one.
pub open spec fn bindings<V>(entries: Seq<(String, V)>) -> Map<Seq<char>, V>
    decreases entries.len(),
{
    if entries.len() == 0 {
        Map::empty()
    } else {
        bindings(entries.drop_last()).insert(entries.last().0@, entries.last().1)
    }
}

/// What the names of a program stand for.
pub struct Scope<V> {
    pub entries: Vec<(String, V)>,
}

impl<V> View for Scope<V> {
    type V = Map<Seq<char>, V>;

    open spec fn view(&self) -> Map<Seq<char>, V> {
        bindings(self.entries@)
    }
}

impl<V> Scope<V> {
    /// The scope in which no name stands for anything.
    pub fn new() -> (scope: Self)
        ensures
            scope@ == Map::<Seq<char>, V>::empty(),
    {
        Scope { entries: Vec::new() }
    }

    /// What `name` stands for, if it stands for something.
    pub fn get(&self, name: &String) -> (value: Option<&V>)
        ensures
            match value {
                Some(v) => self@.contains_key(name@) && self@[name@] == *v,
                None => !self@.contains_key(name@),
            },
    {
        let mut i = self.entries.len();
        assert(self.entries@.take(i as int) == self.entries@);
        while i > 0
            invariant
                i <= self.entries.len(),
                self@.contains_key(name@) <==> bindings(
                    self.entries@.take(i as int),
                ).contains_key(name@),
                self@.contains_key(name@) ==> self@[name@] == bindings(
                    self.entries@.take(i as int),
                )[name@],
            decreases i,
        {
            i -= 1;
            proof {
                let before = self.entries@.take(i as int + 1);
                assert(before.drop_last() == self.entries@.take(i as int));
            }
            if self.entries[i].0 == *name {
                return Some(&self.entries[i].1);
            }
        }
        None
    }

    /// Lets `name` stand for `value` from now on.
    pub fn insert(&mut self, name: String, value: V)
        ensures
            final(self)@ == old(self)@.insert(name@, value),
    {
        self.entries.push((name, value));
        assert(self.entries@.drop_last() == old(self).entries@);
    }
}

} // verus!

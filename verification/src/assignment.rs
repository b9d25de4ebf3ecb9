//! Assignments of truth values to variable names.

use crate::formula::Valuation;
use vstd::hash_map::StringHashMap;
use vstd::prelude::*;

verus! {

/// A mapping from variable names to truth values, looked up during evaluation.
pub struct Assignment {
    values: StringHashMap<bool>,
}

impl View for Assignment {
    type V = Valuation;

    closed spec fn view(&self) -> Valuation {
        self.values@
    }
}

impl Assignment {
    /// The assignment that knows no variable.
    pub fn new() -> (r: Self)
        ensures
            r@ == Map::<Seq<char>, bool>::empty(),
    {
        Assignment { values: StringHashMap::new() }
    }

    /// Gives `name` the truth value `value`, in place of any it had before.
    pub fn insert(&mut self, name: &str, value: bool)
        ensures
            final(self)@ == old(self)@.insert(name@, value),
    {
        self.values.insert(name.to_owned(), value);
    }

    /// The truth value of `name`, if the assignment knows the name.
    pub fn get(&self, name: &str) -> (r: Option<bool>)
        ensures
            r == if self@.dom().contains(name@) {
                Some(self@[name@])
            } else {
                None
            },
    {
        match self.values.get(name) {
            Some(value) => Some(*value),
            None => None,
        }
    }

    /// Whether the assignment knows `name`.
    pub fn contains(&self, name: &str) -> (r: bool)
        ensures
            r == self@.dom().contains(name@),
    {
        self.values.contains_key(name)
    }
}

} // verus!

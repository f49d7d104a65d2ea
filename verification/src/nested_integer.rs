//! Integers nested in lists.

use vstd::prelude::*;

verus! {

/// An integer, or a list of integers and lists.
#[derive(Debug, PartialEq, Eq)]
pub enum NestedInteger {
    Int(i32),
    List(Vec<NestedInteger>),
}

impl NestedInteger {
    /// The integer.
    #[inline]
    pub fn new_int(value: i32) -> (nested: Self)
        ensures
            nested == NestedInteger::Int(value),
    {
        NestedInteger::Int(value)
    }

    /// The list.
    #[inline]
    pub fn new_list(list: Vec<NestedInteger>) -> (nested: Self)
        ensures
            nested == NestedInteger::List(list),
    {
        NestedInteger::List(list)
    }
}

} // verus!

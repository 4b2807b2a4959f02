//! A closed interval of fixed-point scalars.

use vstd::prelude::*;

verus! {

/// A closed interval `[left, right]` of fixed-point scalars.
#[derive(Debug, Clone, Copy, PartialEq, Eq, Structural)]
pub struct Interval {
    pub left: i64,
    pub right: i64,
}

impl Interval {
    /// Builds the interval with the given endpoints.
    pub fn new(left: i64, right: i64) -> (r: Interval)
        ensures
            r.left == left,
            r.right == right,
    {
        Interval { left, right }
    }
}

} // verus!

use vstd::prelude::*;

verus! {

/// A type whose values are ordered by an integer.
///
/// The query engine sorts by fields that may be absent; what it needs from
/// the field's type is one total order, given here as the order of `rank`.
pub trait Ranked {
    /// The integer that orders the values: `a` comes before `b` exactly when
    /// `a.rank() < b.rank()`.
    spec fn rank(&self) -> int;

    /// Whether `self` comes strictly before `other`.
    fn precedes(&self, other: &Self) -> (r: bool)
        ensures
            r == (self.rank() < other.rank()),
    ;
}

} // verus!

//! The `Measure` contract: a quantity type stored as an exact integer count
//! of a fixed resolution unit. From the two conversion primitives alone, the
//! provided methods derive exact addition, subtraction, negation and
//! comparison once, identically for every conforming quantity type.

use vstd::prelude::*;

verus! {

/// A physical quantity held as an exact count of its resolution unit.
///
/// An implementor supplies the spec-level count and the two executable
/// conversion primitives; the arithmetic and comparison methods below come
/// for free and operate on the raw counts, exactly, with no drift.
pub trait Measure: Sized + Copy {
    /// The exact count of resolution units, as a mathematical integer.
    spec fn resolution(self) -> int;

    /// Builds the value with the given count of resolution units.
    fn from_resolution_unit(amount: i64) -> (m: Self)
        ensures
            m.resolution() == amount,
    ;

    /// Reads the exact count of resolution units back.
    fn as_resolution_unit(self) -> (r: i64)
        ensures
            r == self.resolution(),
    ;

    /// Exact addition of the resolution-unit counts.
    fn plus(self, other: Self) -> (r: Self)
        requires
            i64::MIN <= self.resolution() + other.resolution() <= i64::MAX,
        ensures
            r.resolution() == self.resolution() + other.resolution(),
    {
        Self::from_resolution_unit(self.as_resolution_unit() + other.as_resolution_unit())
    }

    /// Exact subtraction of the resolution-unit counts.
    fn minus(self, other: Self) -> (r: Self)
        requires
            i64::MIN <= self.resolution() - other.resolution() <= i64::MAX,
        ensures
            r.resolution() == self.resolution() - other.resolution(),
    {
        Self::from_resolution_unit(self.as_resolution_unit() - other.as_resolution_unit())
    }

    /// Exact negation of the resolution-unit count.
    fn negated(self) -> (r: Self)
        requires
            self.resolution() != i64::MIN,
        ensures
            r.resolution() == -self.resolution(),
    {
        Self::from_resolution_unit(-self.as_resolution_unit())
    }

    /// The strict order on the resolution-unit counts.
    fn less_than(self, other: Self) -> (r: bool)
        ensures
            r == (self.resolution() < other.resolution()),
    {
        self.as_resolution_unit() < other.as_resolution_unit()
    }

    /// Equality of the resolution-unit counts.
    fn equal_to(self, other: Self) -> (r: bool)
        ensures
            r == (self.resolution() == other.resolution()),
    {
        self.as_resolution_unit() == other.as_resolution_unit()
    }
}

/// Law: for any conforming quantity type, adding a value and subtracting it
/// again restores the original count exactly.
pub proof fn lemma_plus_minus_cancel<M: Measure>(a: M, b: M, sum: M, back: M)
    requires
        sum.resolution() == a.resolution() + b.resolution(),
        back.resolution() == sum.resolution() - b.resolution(),
    ensures
        back.resolution() == a.resolution(),
{
}

} // verus!

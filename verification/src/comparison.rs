//! How two numbers stand to each other, as a plain value.
//!
//! The library never computes with fractional numbers itself. Whoever drives it
//! measures lengths and coordinates and reports only how two of them compare;
//! every rule that hangs on such a comparison is decided here.

use core::cmp::Ordering;
use vstd::prelude::*;

verus! {

/// The outcome of comparing a left number with a right number.
///
/// `Unordered` is the outcome when either number is not a number at all.
#[derive(Clone, Copy, Debug, PartialEq, Eq, Structural)]
pub enum Comparison {
    Less,
    Equal,
    Greater,
    Unordered,
}

impl Comparison {
    /// `left < right`.
    pub open spec fn below(self) -> bool {
        self == Comparison::Less
    }

    /// `left > right`.
    pub open spec fn above(self) -> bool {
        self == Comparison::Greater
    }

    /// `left >= right`.
    pub open spec fn at_least(self) -> bool {
        self == Comparison::Greater || self == Comparison::Equal
    }

    /// Whether `left < right` holds.
    pub fn is_below(self) -> (r: bool)
        ensures
            r == self.below(),
    {
        match self {
            Comparison::Less => true,
            _ => false,
        }
    }

    /// Whether `left > right` holds.
    pub fn is_above(self) -> (r: bool)
        ensures
            r == self.above(),
    {
        match self {
            Comparison::Greater => true,
            _ => false,
        }
    }

    /// Whether `left >= right` holds.
    pub fn is_at_least(self) -> (r: bool)
        ensures
            r == self.at_least(),
    {
        match self {
            Comparison::Greater => true,
            Comparison::Equal => true,
            _ => false,
        }
    }
}

/// The comparison that a partial order reports: `None` means unordered.
pub open spec fn outcome_of(order: Option<Ordering>) -> Comparison {
    match order {
        Some(Ordering::Less) => Comparison::Less,
        Some(Ordering::Equal) => Comparison::Equal,
        Some(Ordering::Greater) => Comparison::Greater,
        None => Comparison::Unordered,
    }
}

/// Turns the result of `partial_cmp` into a [`Comparison`].
pub fn comparison_of(order: Option<Ordering>) -> (c: Comparison)
    ensures
        c == outcome_of(order),
{
    match order {
        Some(Ordering::Less) => Comparison::Less,
        Some(Ordering::Equal) => Comparison::Equal,
        Some(Ordering::Greater) => Comparison::Greater,
        None => Comparison::Unordered,
    }
}

} // verus!

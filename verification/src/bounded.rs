//! The bounded clamp capability: a per-implementation maximum.
//!
//! `BoundedIntStream` adds one constant — fixed per concrete implementation,
//! a function of the implementing type alone — and one derived operation
//! that clamps each produced element to that maximum. Clamping is a value
//! transform, not a filter: it makes exactly one base call, and never turns
//! a present element into absence.

use vstd::prelude::*;

use crate::stream::Count;
use crate::stream::FiniteCount;
use crate::stream::IntStream;

verus! {

/// Clamp `v` to the bound `max`.
pub open spec fn clamped(v: i32, max: i32) -> i32 {
    if v <= max {
        v
    } else {
        max
    }
}

/// Clamp a produced element to `max`; absence is left alone.
pub open spec fn clamped_out(out: Option<i32>, max: i32) -> Option<i32> {
    match out {
        None => None,
        Some(v) => Some(clamped(v, max)),
    }
}

/// A capability with a per-implementation maximum: elements above it are
/// reported as the maximum itself.
pub trait BoundedIntStream: IntStream {
    /// The maximum, fixed once per implementation: it depends on nothing but
    /// the implementing type.
    spec fn max_spec() -> i32;

    /// The maximum, as a value.
    fn max() -> (r: i32)
        ensures
            r == Self::max_spec(),
    ;

    /// Produce the next element clamped to the maximum; absence is passed
    /// through, and a present element is never turned into absence.
    fn bounded_next(&mut self) -> (r: Option<i32>)
        ensures
            old(self).exhausted() ==> r is None,
            r is None ==> final(self).exhausted(),
            r matches Some(v) ==> v <= Self::max_spec(),
            exists|out: Option<i32>|
                #[trigger] Self::step(*old(self), *final(self), out)
                    && r == clamped_out(out, Self::max_spec()),
    {
        let next = match self.next() {
            None => {
                return None;
            },
            Some(v) => v,
        };
        let max = Self::max();
        if next < max {
            Some(next)
        } else {
            Some(max)
        }
    }
}

/// The counting producer reports every element above five as five.
impl BoundedIntStream for Count {
    open spec fn max_spec() -> i32 {
        5
    }

    fn max() -> i32 {
        5
    }
}

/// The bounded counting producer reports every element above five as five.
impl BoundedIntStream for FiniteCount {
    open spec fn max_spec() -> i32 {
        5
    }

    fn max() -> i32 {
        5
    }
}

} // verus!

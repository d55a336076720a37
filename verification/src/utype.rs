//! The breakpoint types that an axis can hold.

use core::ops::Sub;
use vstd::prelude::*;
use vstd::std_specs::cmp::PartialOrdIs;
use vstd::std_specs::cmp::PartialOrdSpec;
use vstd::std_specs::convert::IntoSpec;
use vstd::std_specs::convert::TryFromSpec;

verus! {

/// An unsigned breakpoint type that is strictly narrower than the 32-bit
/// accumulator in which ratios and offsets are computed.
///
/// The three lemmas tie the operators of the type to the number that a value
/// widens to. Every lookup is specified over these numbers, so an
/// implementation has to prove the lemmas before its values can be used as
/// breakpoints.
pub trait UType: Clone + Copy + PartialOrd + Into<u32> + TryFrom<u32> + Sub {
    /// Widening is lossless and stays within 16 bits, which leaves room in
    /// the accumulator for a difference scaled by 0x10000.
    proof fn lemma_widen(a: Self, b: Self)
        ensures
            Self::obeys_into_spec(),
            a.into_spec() <= 0xFFFF,
            a.into_spec() == b.into_spec() ==> a == b,
    ;

    /// Comparing two values compares the numbers they widen to.
    proof fn lemma_order(a: Self, b: Self)
        ensures
            Self::obeys_partial_cmp_spec(),
            a.is_lt(&b) <==> a.into_spec() < b.into_spec(),
            a.is_le(&b) <==> a.into_spec() <= b.into_spec(),
            a.is_gt(&b) <==> a.into_spec() > b.into_spec(),
            a.is_ge(&b) <==> a.into_spec() >= b.into_spec(),
    ;

    /// Narrowing succeeds on every number that lies between two values of
    /// the type, and gives the value that widens to that number.
    proof fn lemma_narrow(lo: Self, w: u32, hi: Self)
        requires
            lo.into_spec() <= w <= hi.into_spec(),
        ensures
            Self::obeys_try_from_spec(),
            Self::try_from_spec(w) matches Ok(x) && x.into_spec() == w,
    ;
}

impl UType for u8 {
    proof fn lemma_widen(a: Self, b: Self) {
    }

    proof fn lemma_order(a: Self, b: Self) {
    }

    proof fn lemma_narrow(lo: Self, w: u32, hi: Self) {
    }
}

impl UType for u16 {
    proof fn lemma_widen(a: Self, b: Self) {
    }

    proof fn lemma_order(a: Self, b: Self) {
    }

    proof fn lemma_narrow(lo: Self, w: u32, hi: Self) {
    }
}

/// The number that a breakpoint stands for.
pub open spec fn wide<T: UType>(x: T) -> int {
    x.into_spec() as int
}

/// The numbers that the breakpoints of an axis stand for, in the order of
/// the axis.
pub open spec fn wide_axis<T: UType>(axis: Seq<T>) -> Seq<int> {
    Seq::new(axis.len(), |i: int| wide(axis[i]))
}

} // verus!

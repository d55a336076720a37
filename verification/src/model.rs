//! The arithmetic of a lookup, over unbounded integers.
//!
//! An axis is a sequence of numbers. A place on it is an index and a ratio.

use vstd::prelude::*;

verus! {

/// The breakpoints never decrease from one position to the next.
pub open spec fn ascending(axis: Seq<int>) -> bool {
    forall|i: int, j: int| 0 <= i <= j < axis.len() ==> axis[i] <= axis[j]
}

/// How far `left` reaches into a segment of width `right`, rounded down to a
/// fixed-point ratio in which 0x10000 stands for the whole segment.
pub open spec fn ratio_of(left: int, right: int) -> int {
    (left * 0x10000) / right
}

/// The part of `diff` that the fixed-point `ratio` selects, rounded down.
pub open spec fn offset_of(diff: int, ratio: int) -> int {
    (diff * ratio) / 0x10000
}

/// `(index, ratio)` is the place of `val` on `axis`.
///
/// A value at or below the first breakpoint sits at index 0 with ratio 0.
/// Any other value at or above the last breakpoint sits at the last index
/// with ratio 0. A value strictly between the two sits in the segment that
/// starts at `index`, `ratio` of the way towards the next breakpoint.
pub open spec fn located(axis: Seq<int>, val: int, index: int, ratio: int) -> bool {
    &&& axis.len() > 0
    &&& val <= axis[0] ==> index == 0 && ratio == 0
    &&& axis[0] < val && axis.last() <= val ==> index == axis.len() - 1 && ratio == 0
    &&& axis[0] < val < axis.last() ==> {
        &&& 0 <= index < axis.len() - 1
        &&& axis[index] <= val < axis[index + 1]
        &&& ratio == ratio_of(val - axis[index], axis[index + 1] - axis[index])
    }
}

/// A place can be read on an axis of `len` breakpoints: `index` is on the
/// axis, and so is its right neighbour unless `ratio` is 0.
pub open spec fn on_axis(len: int, index: int, ratio: int) -> bool {
    &&& 0 <= index < len
    &&& ratio != 0 ==> index + 1 < len
}

/// The number that lies `ratio` of the way from `from` towards `to`, rounded
/// towards `from`. The way may lead up or down.
pub open spec fn along(from: int, to: int, ratio: int) -> int {
    if from <= to {
        from + offset_of(to - from, ratio)
    } else {
        from - offset_of(from - to, ratio)
    }
}

/// The number found on `axis` at the place `(index, ratio)`.
///
/// With ratio 0 it is the breakpoint at `index`, and the next breakpoint is
/// not looked at. Otherwise it lies on the way from that breakpoint to the
/// next one.
pub open spec fn interpolated(axis: Seq<int>, index: int, ratio: int) -> int {
    if ratio == 0 {
        axis[index]
    } else {
        along(axis[index], axis[index + 1], ratio)
    }
}

/// A ratio taken strictly inside a segment fits in 16 bits.
pub proof fn lemma_ratio_bounds(left: int, right: int)
    requires
        0 <= left < right,
    ensures
        0 <= ratio_of(left, right) < 0x10000,
{
    assert(0 <= (left * 0x10000) / right < 0x10000) by (nonlinear_arith)
        requires
            0 <= left < right,
    ;
}

/// An offset never exceeds the difference it is taken from, and the product
/// it is cut from stays below the difference scaled by 0x10000.
pub proof fn lemma_offset_bounds(diff: int, ratio: int)
    requires
        0 <= diff,
        0 <= ratio < 0x10000,
    ensures
        0 <= offset_of(diff, ratio) <= diff,
        diff * ratio <= diff * 0xFFFF,
{
    assert(0 <= diff * ratio <= diff * 0xFFFF) by (nonlinear_arith)
        requires
            0 <= diff,
            0 <= ratio <= 0xFFFF,
    ;
}

} // verus!

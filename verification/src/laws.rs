//! What holds of every search and of every reading.

use crate::model::along;
use crate::model::ascending;
use crate::model::lemma_ratio_bounds;
use crate::model::located;
use crate::model::offset_of;
use crate::model::ratio_of;
use crate::search::DpSearchResult;
use crate::utype::wide;
use crate::utype::wide_axis;
use crate::utype::UType;
use vstd::arithmetic::div_mod::lemma_div_is_ordered;
use vstd::arithmetic::div_mod::lemma_fundamental_div_mod;
use vstd::prelude::*;

verus! {

/// Searching is monotonic: on an ascending axis a value is never placed
/// before a smaller one, neither by its index nor, within one segment, by its
/// ratio.
pub proof fn lemma_search_is_monotonic<T: UType>(
    x_axis: Seq<T>,
    v1: T,
    v2: T,
    r1: DpSearchResult,
    r2: DpSearchResult,
)
    requires
        ascending(wide_axis(x_axis)),
        wide(v1) <= wide(v2),
        r1.locates(v1, x_axis),
        r2.locates(v2, x_axis),
    ensures
        r1.index <= r2.index,
        r1.index == r2.index ==> r1.ratio <= r2.ratio,
{
    let axis = wide_axis(x_axis);
    lemma_located_is_monotonic(
        axis,
        wide(v1),
        wide(v2),
        r1.index as int,
        r1.ratio as int,
        r2.index as int,
        r2.ratio as int,
    );
}

/// On an ascending axis a value has one place only, so a search can give
/// nothing else.
pub proof fn lemma_place_is_unique<T: UType>(
    x_axis: Seq<T>,
    val: T,
    r1: DpSearchResult,
    r2: DpSearchResult,
)
    requires
        ascending(wide_axis(x_axis)),
        r1.locates(val, x_axis),
        r2.locates(val, x_axis),
    ensures
        r1 == r2,
{
    lemma_search_is_monotonic(x_axis, val, val, r1, r2);
    lemma_search_is_monotonic(x_axis, val, val, r2, r1);
}

/// Reading an axis at the place where a value was found on that same axis
/// gives the value back, or the number just below it: rounding down twice
/// loses less than one unit. The value has to lie within the axis.
pub proof fn lemma_round_trip<T: UType>(axis: Seq<T>, x: T, res: DpSearchResult)
    requires
        res.locates(x, axis),
        wide(axis[0]) <= wide(x) <= wide(axis.last()),
    ensures
        wide(x) - 1 <= res.value_on(axis) <= wide(x),
{
    let a = wide_axis(axis);
    let i = res.index as int;
    if a[0] < wide(x) < a.last() {
        T::lemma_widen(axis[i], axis[i + 1]);
        T::lemma_widen(axis[i + 1], axis[i]);
        lemma_ratio_round_trip(wide(x) - a[i], a[i + 1] - a[i]);
    }
}

/// A falling segment mirrors a rising one. Reversing an axis turns the
/// segment at `res.index` into the one at `mirrored.index`. Reading both at
/// the same ratio gives two numbers that lie equally far from the two ends of
/// the segment, so they add up to the sum of its breakpoints.
pub proof fn lemma_reverse_mirrors<T: UType>(
    y_axis: Seq<T>,
    res: DpSearchResult,
    mirrored: DpSearchResult,
)
    requires
        res.index + 1 < y_axis.len(),
        mirrored.index == y_axis.len() - 2 - res.index,
        mirrored.ratio == res.ratio,
    ensures
        res.value_on(y_axis) + mirrored.value_on(y_axis.reverse()) == wide(
            y_axis[res.index as int],
        ) + wide(y_axis[res.index + 1]),
{
    let i = res.index as int;
    let j = mirrored.index as int;
    let rev = y_axis.reverse();
    assert(rev[j] == y_axis[i + 1]);
    assert(rev[j + 1] == y_axis[i]);
    lemma_along_mirrors(wide(y_axis[i]), wide(y_axis[i + 1]), res.ratio as int);
}

/// Monotonicity of places, over the numbers themselves.
proof fn lemma_located_is_monotonic(
    axis: Seq<int>,
    v1: int,
    v2: int,
    i1: int,
    f1: int,
    i2: int,
    f2: int,
)
    requires
        ascending(axis),
        v1 <= v2,
        located(axis, v1, i1, f1),
        located(axis, v2, i2, f2),
    ensures
        i1 <= i2,
        i1 == i2 ==> f1 <= f2,
{
    if axis[0] < v1 < axis.last() {
        if axis[0] < v2 < axis.last() {
            if i2 < i1 {
                // The segment of `v2` would end before `v1`.
                assert(axis[i2 + 1] <= axis[i1]);
            }
            if i1 == i2 {
                let width = axis[i1 + 1] - axis[i1];
                lemma_div_is_ordered((v1 - axis[i1]) * 0x10000, (v2 - axis[i1]) * 0x10000, width);
            }
        }
    } else if v1 <= axis[0] {
        if axis[0] < v2 < axis.last() {
            lemma_ratio_bounds(v2 - axis[i2], axis[i2 + 1] - axis[i2]);
        }
    }
}

/// Going the same part of the way from either end of a segment gives two
/// numbers that add up to the sum of the ends.
proof fn lemma_along_mirrors(a: int, b: int, ratio: int)
    ensures
        along(a, b, ratio) + along(b, a, ratio) == a + b,
{
    if a == b {
        assert(offset_of(0, ratio) == 0) by (nonlinear_arith);
    }
}

/// Scaling a position up to a ratio and back down loses less than one unit,
/// as long as the segment is narrower than the scale.
proof fn lemma_ratio_round_trip(left: int, right: int)
    requires
        0 <= left < right < 0x10000,
    ensures
        left - 1 <= offset_of(right, ratio_of(left, right)) <= left,
        ratio_of(left, right) == 0 ==> left == 0,
{
    let scaled = left * 0x10000;
    let ratio = scaled / right;
    lemma_fundamental_div_mod(scaled, right);
    assert(0 <= scaled % right < right) by (nonlinear_arith)
        requires
            0 < right,
    ;
    assert(right * ratio <= scaled);
    assert(right * ratio > scaled - 0x10000);
}

} // verus!

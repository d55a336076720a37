//! Finding the place of a value on an axis.

use crate::error::Error;
use crate::error::Result;
use crate::model::interpolated;
use crate::model::lemma_ratio_bounds;
use crate::model::located;
use crate::model::on_axis;
use crate::utype::wide;
use crate::utype::wide_axis;
use crate::utype::UType;
use vstd::prelude::*;

verus! {

/// The place of a value on an axis: the breakpoint at or below it, and how
/// far the value reaches towards the next breakpoint, as a 16-bit fixed-point
/// ratio.
#[derive(Debug, Clone, Copy)]
pub struct DpSearchResult {
    /// The position of the breakpoint at which the segment starts.
    pub index: usize,
    /// The part of the segment that lies below the value, where 0x10000
    /// would stand for the whole segment.
    pub ratio: u16,
}

impl DpSearchResult {
    /// `self` is the place of `val` on `x_axis`.
    pub open spec fn locates<T: UType>(&self, val: T, x_axis: Seq<T>) -> bool {
        located(wide_axis(x_axis), wide(val), self.index as int, self.ratio as int)
    }

    /// `self` can be read on an axis of `len` breakpoints.
    pub open spec fn fits(&self, len: nat) -> bool {
        on_axis(len as int, self.index as int, self.ratio as int)
    }

    /// The number found at this place on `y_axis`.
    pub open spec fn value_on<T: UType>(&self, y_axis: Seq<T>) -> int {
        interpolated(wide_axis(y_axis), self.index as int, self.ratio as int)
    }

    /// Finds the place of `val` on an axis of 8-bit breakpoints.
    ///
    /// It behaves as `search` does on the same arguments.
    pub fn search_u8(val: u8, x_axis: &[u8]) -> (r: Result<Self>)
        ensures
            r is Ok <==> x_axis@.len() > 0,
            r matches Err(e) ==> e == Error::AxisToShort,
            r matches Ok(res) ==> res.locates(val, x_axis@) && res.fits(x_axis@.len()),
    {
        let mut result = DpSearchResult { index: 0, ratio: 0 };
        let len: usize = x_axis.len();

        if len < 1 {
            Err(Error::AxisToShort)
        } else if val <= x_axis[0] {
            result.index = 0;
            result.ratio = 0;

            Ok(result)
        } else if val >= x_axis[len - 1] {
            result.index = len - 1;
            result.ratio = 0;

            Ok(result)
        } else {
            let mut lower: usize = 0;
            let mut upper: usize = len - 1;

            while upper - lower > 1
                invariant
                    len == x_axis@.len(),
                    lower < upper < len,
                    x_axis@[lower as int] <= val < x_axis@[upper as int],
                decreases upper - lower,
            {
                let mid: usize = lower + (upper - lower) / 2;

                if val < x_axis[mid] {
                    upper = mid;
                } else {
                    lower = mid;
                }
            }

            result.index = lower;

            proof {
                lemma_ratio_bounds(
                    val - x_axis[lower as int],
                    x_axis[lower + 1] - x_axis[lower as int],
                );
            }
            let left: u32 = u32::from(val) - u32::from(x_axis[lower]);
            let right: u32 = u32::from(x_axis[lower + 1]) - u32::from(x_axis[lower]);
            let ratio: u32 = (left * 0x10000) / right;

            match u16::try_from(ratio) {
                Ok(res) => result.ratio = res,
                // Never taken: the value lies inside its segment.
                Err(_) => return Err(Error::UnconditionalState),
            }

            Ok(result)
        }
    }

    /// Finds the place of `val` on the breakpoints of `x_axis`, by bisection.
    ///
    /// An empty axis is the only reason to fail. Values outside the axis are
    /// clamped to its nearest end. On an ascending axis the place is the only
    /// one that `locates` admits; on any other axis it is one of them.
    pub fn search<T>(val: T, x_axis: &[T]) -> (r: Result<Self>) where T: UType
        ensures
            r is Ok <==> x_axis@.len() > 0,
            r matches Err(e) ==> e == Error::AxisToShort,
            r matches Ok(res) ==> res.locates(val, x_axis@) && res.fits(x_axis@.len()),
    {
        let mut result = DpSearchResult { index: 0, ratio: 0 };
        let len: usize = x_axis.len();

        proof {
            if len >= 1 {
                T::lemma_order(val, x_axis[0]);
                T::lemma_order(val, x_axis[len - 1]);
            }
        }
        if len < 1 {
            Err(Error::AxisToShort)
        } else if val <= x_axis[0] {
            result.index = 0;
            result.ratio = 0;

            Ok(result)
        } else if val >= x_axis[len - 1] {
            result.index = len - 1;
            result.ratio = 0;

            Ok(result)
        } else {
            let mut lower: usize = 0;
            let mut upper: usize = len - 1;

            while upper - lower > 1
                invariant
                    len == x_axis@.len(),
                    lower < upper < len,
                    wide(x_axis@[lower as int]) <= wide(val) < wide(x_axis@[upper as int]),
                decreases upper - lower,
            {
                let mid: usize = lower + (upper - lower) / 2;

                proof {
                    T::lemma_order(val, x_axis[mid as int]);
                }
                if val < x_axis[mid] {
                    upper = mid;
                } else {
                    lower = mid;
                }
            }

            result.index = lower;

            proof {
                T::lemma_widen(val, x_axis[lower as int]);
                T::lemma_widen(x_axis[lower + 1], x_axis[lower as int]);
                lemma_ratio_bounds(
                    wide(val) - wide(x_axis[lower as int]),
                    wide(x_axis[lower + 1]) - wide(x_axis[lower as int]),
                );
            }
            let wide_val: u32 = val.into();
            let wide_low: u32 = x_axis[lower].into();
            let wide_high: u32 = x_axis[lower + 1].into();
            let left: u32 = wide_val - wide_low;
            let right: u32 = wide_high - wide_low;
            let ratio: u32 = (left * 0x10000) / right;

            match u16::try_from(ratio) {
                Ok(ratio) => {
                    result.ratio = ratio;
                    Ok(result)
                },
                // Never taken: the value lies inside its segment.
                Err(_) => Err(Error::UnconditionalState),
            }
        }
    }
}

} // verus!

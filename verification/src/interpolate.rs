//! Reading an axis at a place.

use crate::error::Error;
use crate::error::Result;
use crate::model::lemma_offset_bounds;
use crate::search::DpSearchResult;
use crate::utype::wide;
use crate::utype::UType;
use vstd::prelude::*;

verus! {

/// Reads an axis of 8-bit breakpoints at the place `dp_res`.
///
/// The place has to lie on the axis, which holds for a place that was found
/// on an axis of the same length. The segment may rise or fall. The call
/// always succeeds, and gives what `rs_ipo_cur` gives on the same arguments.
pub fn rs_ipo_cur_u8(dp_res: &DpSearchResult, y_axis: &[u8]) -> (r: Result<u8>)
    requires
        dp_res.fits(y_axis@.len()),
    ensures
        r matches Ok(y) && wide(y) == dp_res.value_on(y_axis@),
{
    if 0 == dp_res.ratio {
        Ok(y_axis[dp_res.index])
    } else {
        if y_axis[dp_res.index] <= y_axis[dp_res.index + 1] {
            proof {
                lemma_offset_bounds(
                    y_axis[dp_res.index + 1] - y_axis[dp_res.index as int],
                    dp_res.ratio as int,
                );
            }
            let diff: u32 = u32::from(y_axis[dp_res.index + 1] - y_axis[dp_res.index]);
            let offset: u32 = (diff * u32::from(dp_res.ratio)) / 0x10000;

            match u8::try_from(offset) {
                Ok(offset) => Ok(y_axis[dp_res.index] + offset),
                // Never taken: the offset is no larger than the difference.
                Err(_) => Err(Error::UnconditionalState),
            }
        } else {
            proof {
                lemma_offset_bounds(
                    y_axis[dp_res.index as int] - y_axis[dp_res.index + 1],
                    dp_res.ratio as int,
                );
            }
            let diff: u32 = u32::from(y_axis[dp_res.index] - y_axis[dp_res.index + 1]);
            let offset: u32 = (diff * u32::from(dp_res.ratio)) / 0x10000;

            match u8::try_from(offset) {
                Ok(offset) => Ok(y_axis[dp_res.index] - offset),
                // Never taken: the offset is no larger than the difference.
                Err(_) => Err(Error::UnconditionalState),
            }
        }
    }
}

/// Reads an axis of breakpoints of any supported width at the place `dp_res`.
///
/// The place has to lie on the axis, which holds for a place that was found
/// on an axis of the same length. The segment may rise or fall. The call
/// always succeeds: the result lies between two breakpoints, so it fits
/// their type.
pub fn rs_ipo_cur<T>(dp_res: &DpSearchResult, y_axis: &[T]) -> (r: Result<T>) where T: UType
    requires
        dp_res.fits(y_axis@.len()),
    ensures
        r matches Ok(y) && wide(y) == dp_res.value_on(y_axis@),
{
    if 0 == dp_res.ratio {
        Ok(y_axis[dp_res.index])
    } else {
        let low: T = y_axis[dp_res.index];
        let high: T = y_axis[dp_res.index + 1];
        proof {
            T::lemma_order(low, high);
            T::lemma_widen(low, high);
            T::lemma_widen(high, low);
        }
        let base: u32 = low.into();
        let next: u32 = high.into();

        if low <= high {
            proof {
                lemma_offset_bounds(next - base, dp_res.ratio as int);
            }
            let offset: u32 = ((next - base) * u32::from(dp_res.ratio)) / 0x10000;
            let target: u32 = base + offset;
            proof {
                T::lemma_narrow(low, target, high);
            }

            match T::try_from(target) {
                Ok(y) => Ok(y),
                // Never taken: the target lies between the two breakpoints.
                Err(_) => Err(Error::UnconditionalState),
            }
        } else {
            proof {
                lemma_offset_bounds(base - next, dp_res.ratio as int);
            }
            let offset: u32 = ((base - next) * u32::from(dp_res.ratio)) / 0x10000;
            let target: u32 = base - offset;
            proof {
                T::lemma_narrow(high, target, low);
            }

            match T::try_from(target) {
                Ok(y) => Ok(y),
                // Never taken: the target lies between the two breakpoints.
                Err(_) => Err(Error::UnconditionalState),
            }
        }
    }
}

/// The entry point for lookups on two-dimensional maps. No map is read: the
/// call yields 0.
pub fn ipo_map_u8() -> (r: Result<u8>)
    ensures
        r == Ok::<u8, Error>(0),
{
    Ok(0)
}

} // verus!

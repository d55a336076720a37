//! The errors of a lookup.

use vstd::prelude::*;

verus! {

/// The reasons for which a lookup can fail.
#[derive(Debug, PartialEq, Eq, Structural)]
pub enum Error {
    /// The axis holds no breakpoint at all.
    AxisToShort,
    /// A value that fits its target width by construction did not fit.
    UnconditionalState,
    /// A failure reported by foreign code.
    CError,
}

/// What a lookup returns.
pub type Result<T> = core::result::Result<T, Error>;

} // verus!

//! Piecewise-linear lookup on tables of unsigned integers, in fixed-point
//! arithmetic.
//!
//! A lookup takes two steps. `DpSearchResult::search` finds the place of a
//! value on an axis of breakpoints. `rs_ipo_cur` reads a second axis of the
//! same length at that place. Values outside the first axis are clamped to
//! its nearest end.

pub mod error;
pub mod interpolate;
pub mod laws;
pub mod model;
pub mod search;
pub mod utype;

pub use interpolate::ipo_map_u8;
pub use interpolate::rs_ipo_cur;
pub use interpolate::rs_ipo_cur_u8;
pub use search::DpSearchResult;
pub use utype::UType;

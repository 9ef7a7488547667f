//! Composites a stamp image (a logo or watermark) onto photos, optionally
//! writes a line of text near the bottom, and re-encodes the result.
use vstd::prelude::*;

pub mod pixel;
pub mod placement;
pub mod blend;
pub mod text;
pub mod format;
pub mod error;
pub mod codec;
pub mod stamper;

verus! {

} // verus!

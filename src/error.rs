//! What can go wrong while stamping.
use vstd::prelude::*;

verus! {

/// The ways a stamping call can fail. Each leaves the stamper as it was.
#[derive(Debug, PartialEq, Eq)]
pub enum StampError {
    /// The bytes do not decode as an image; holds the decoder's message.
    Decode(String),
    /// No stamp has been set yet.
    StampNotSet,
    /// A stored raster's bytes do not match its dimensions, or a raster of
    /// the needed size cannot be held in memory.
    BufferReconstruction,
    /// The requested output format is not one this library writes; holds the name given.
    UnsupportedFormat(String),
    /// The encoder failed; holds its message.
    Encode(String),
}

} // verus!

//! Decoded frames as the decoders hand them out.
use vstd::prelude::*;

verus! {

/// A decoded video frame: RGBA pixels, its size and its presentation time.
#[derive(Debug, Clone)]
pub struct DecodedFrame {
    pub data: Vec<u8>,
    pub width: u32,
    pub height: u32,
    pub pts: i64,
}

} // verus!

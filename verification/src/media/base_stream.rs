//! Media packets as the demuxer hands them to the streams.
use vstd::prelude::*;

verus! {

/// An encoded media frame: its bytes, presentation time and duration in time-base
/// units, and the time base `time_base_num / time_base_den` seconds.
#[derive(Debug, Clone)]
pub struct MediaPacket {
    pub data: Vec<u8>,
    pub pts: i64,
    pub duration: i64,
    pub time_base_num: i32,
    pub time_base_den: i32,
}

} // verus!

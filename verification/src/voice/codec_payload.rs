//! The fixed RTP payload types and clock rates Discord uses per codec.
use vstd::prelude::*;
use vstd::string::*;
use crate::utils::VideoCodec;

verus! {

/// An audio codec's RTP parameters.
#[derive(Debug, Clone, Copy)]
pub struct AudioCodecInfo {
    pub name: &'static str,
    pub clock_rate: u32,
    pub payload_type: u8,
}

/// A video codec's RTP parameters.
#[derive(Debug, Clone, Copy)]
pub struct VideoCodecInfo {
    pub name: &'static str,
    pub clock_rate: u32,
    pub payload_type: u8,
    pub rtx_payload_type: u8,
    pub priority: u16,
}

/// Opus: payload type 120 at 48 kHz.
pub fn opus() -> (r: AudioCodecInfo)
    ensures
        r.name@ == "opus"@,
        r.clock_rate == 48_000,
        r.payload_type == 120,
{
    AudioCodecInfo { name: "opus", clock_rate: 48_000, payload_type: 120 }
}

/// H264: payload type 101 (retransmission 102) at 90 kHz, priority 1000.
pub fn h264() -> (r: VideoCodecInfo)
    ensures
        r.name@ == "H264"@,
        r.clock_rate == 90_000,
        r.payload_type == 101,
        r.rtx_payload_type == 102,
        r.priority == 1000,
{
    VideoCodecInfo {
        name: "H264",
        clock_rate: 90_000,
        priority: 1000,
        payload_type: 101,
        rtx_payload_type: 102,
    }
}

/// H265: payload type 103 (retransmission 104) at 90 kHz, priority 1000.
pub fn h265() -> (r: VideoCodecInfo)
    ensures
        r.name@ == "H265"@,
        r.clock_rate == 90_000,
        r.payload_type == 103,
        r.rtx_payload_type == 104,
        r.priority == 1000,
{
    VideoCodecInfo {
        name: "H265",
        clock_rate: 90_000,
        priority: 1000,
        payload_type: 103,
        rtx_payload_type: 104,
    }
}

/// VP8: payload type 105 (retransmission 106) at 90 kHz, priority 1000.
pub fn vp8() -> (r: VideoCodecInfo)
    ensures
        r.name@ == "VP8"@,
        r.clock_rate == 90_000,
        r.payload_type == 105,
        r.rtx_payload_type == 106,
        r.priority == 1000,
{
    VideoCodecInfo {
        name: "VP8",
        clock_rate: 90_000,
        priority: 1000,
        payload_type: 105,
        rtx_payload_type: 106,
    }
}

/// VP9: payload type 107 (retransmission 108) at 90 kHz, priority 1000.
pub fn vp9() -> (r: VideoCodecInfo)
    ensures
        r.name@ == "VP9"@,
        r.clock_rate == 90_000,
        r.payload_type == 107,
        r.rtx_payload_type == 108,
        r.priority == 1000,
{
    VideoCodecInfo {
        name: "VP9",
        clock_rate: 90_000,
        priority: 1000,
        payload_type: 107,
        rtx_payload_type: 108,
    }
}

/// AV1: payload type 109 (retransmission 110) at 90 kHz, priority 1000.
pub fn av1() -> (r: VideoCodecInfo)
    ensures
        r.name@ == "AV1"@,
        r.clock_rate == 90_000,
        r.payload_type == 109,
        r.rtx_payload_type == 110,
        r.priority == 1000,
{
    VideoCodecInfo {
        name: "AV1",
        clock_rate: 90_000,
        priority: 1000,
        payload_type: 109,
        rtx_payload_type: 110,
    }
}

/// Every video codec, in the order they are offered.
pub fn all_video_codecs() -> (r: Vec<VideoCodecInfo>)
    ensures
        r@.len() == 5,
        r@[0].payload_type == 101,
        r@[1].payload_type == 103,
        r@[2].payload_type == 105,
        r@[3].payload_type == 107,
        r@[4].payload_type == 109,
        forall|i: int| 0 <= i < 5 ==> (#[trigger] r@[i]).clock_rate == 90_000 && r@[i].rtx_payload_type == r@[i].payload_type + 1,
{
    let mut v = Vec::new();
    v.push(h264());
    v.push(h265());
    v.push(vp8());
    v.push(vp9());
    v.push(av1());
    v
}

/// The RTP parameters of a video codec.
pub fn video_codec_info(codec: VideoCodec) -> (r: VideoCodecInfo)
    ensures
        r.clock_rate == 90_000,
        r.payload_type == match codec {
            VideoCodec::H264 => 101u8,
            VideoCodec::H265 => 103u8,
            VideoCodec::Vp8 => 105u8,
            VideoCodec::Vp9 => 107u8,
            VideoCodec::Av1 => 109u8,
        },
        r.rtx_payload_type == r.payload_type + 1,
        r.name@ == codec.name(),
{
    match codec {
        VideoCodec::H264 => h264(),
        VideoCodec::H265 => h265(),
        VideoCodec::Vp8 => vp8(),
        VideoCodec::Vp9 => vp9(),
        VideoCodec::Av1 => av1(),
    }
}

/// The MIME type a video codec is registered under: `video/` and its name.
pub fn video_mime_type(info: &VideoCodecInfo) -> (r: String)
    ensures
        r@ == "video/"@ + info.name@,
{
    let mut s = String::from_str("video/");
    s.append(info.name);
    s
}

} // verus!

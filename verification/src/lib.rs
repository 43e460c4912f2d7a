//! Streaming audio and video to Discord voice channels: the voice gateway's state
//! machine and its DAVE end-to-end encryption, the main gateway controller, RTP
//! packetization with H264 SPS rewriting, stream keys, and encoder settings.
pub mod dave;
pub mod gateway;
pub mod media;
pub mod processing;
pub mod utils;
pub mod voice;

pub use dave::{DaveError, DaveHandler};
pub use gateway::{GatewayEvent, GatewayOpCode, GatewayPayload, Streamer, StreamerError};
pub use processing::{
    rewrite_sps_vui, split_nalu, H264Helpers, H264NalUnitType, H265Helpers, H265NalUnitType,
};
pub use utils::{
    generate_stream_key, normalize_video_codec, parse_stream_key, StreamKey, StreamType, VideoCodec,
};
pub use voice::{
    ConnectionError, StreamConnection, VoiceConnection, VoiceEvent, WebRtcError, WebRtcParams,
};

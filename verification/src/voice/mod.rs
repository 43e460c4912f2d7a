pub mod codec_payload;
pub mod connection;
pub mod opcodes;
pub mod stream_connection;
pub mod types;
pub mod webrtc;

pub use codec_payload::{AudioCodecInfo, VideoCodecInfo};
pub use connection::{
    ConnectionError, GatewayCommand, MessageBody, VoiceAction, VoiceConnection, VoiceEvent,
    WebRtcParams,
};
pub use opcodes::{VoiceOpCode, VoiceOpCodeBinary};
pub use stream_connection::StreamConnection;
pub use webrtc::{Packetizer, WebRtcError};

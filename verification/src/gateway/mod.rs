pub mod events;
pub mod opcodes;
pub mod streamer;

pub use events::{DispatchKind, GatewayEvent};
pub use opcodes::GatewayOpCode;
pub use streamer::{GatewayPayload, Streamer, StreamerError, VoiceStateData};

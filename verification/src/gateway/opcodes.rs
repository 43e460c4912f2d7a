//! Opcodes of the Discord main gateway that the streamer sends.
use vstd::prelude::*;

verus! {

/// Main gateway opcodes.
#[derive(Debug, Clone, Copy, PartialEq, Eq, Structural)]
pub enum GatewayOpCode {
    Dispatch,
    Heartbeat,
    Identify,
    PresenceUpdate,
    VoiceStateUpdate,
    Resume,
    Reconnect,
    RequestGuildMembers,
    InvalidSession,
    Hello,
    HeartbeatAck,
    StreamCreate,
    StreamDelete,
    StreamWatch,
    StreamPing,
    StreamSetPaused,
}

impl GatewayOpCode {
    /// The opcode number.
    pub open spec fn value(self) -> u8 {
        match self {
            GatewayOpCode::Dispatch => 0,
            GatewayOpCode::Heartbeat => 1,
            GatewayOpCode::Identify => 2,
            GatewayOpCode::PresenceUpdate => 3,
            GatewayOpCode::VoiceStateUpdate => 4,
            GatewayOpCode::Resume => 6,
            GatewayOpCode::Reconnect => 7,
            GatewayOpCode::RequestGuildMembers => 8,
            GatewayOpCode::InvalidSession => 9,
            GatewayOpCode::Hello => 10,
            GatewayOpCode::HeartbeatAck => 11,
            GatewayOpCode::StreamCreate => 18,
            GatewayOpCode::StreamDelete => 19,
            GatewayOpCode::StreamWatch => 20,
            GatewayOpCode::StreamPing => 21,
            GatewayOpCode::StreamSetPaused => 22,
        }
    }

    /// The opcode number.
    pub fn as_u8(self) -> (r: u8)
        ensures
            r == self.value(),
    {
        match self {
            GatewayOpCode::Dispatch => 0,
            GatewayOpCode::Heartbeat => 1,
            GatewayOpCode::Identify => 2,
            GatewayOpCode::PresenceUpdate => 3,
            GatewayOpCode::VoiceStateUpdate => 4,
            GatewayOpCode::Resume => 6,
            GatewayOpCode::Reconnect => 7,
            GatewayOpCode::RequestGuildMembers => 8,
            GatewayOpCode::InvalidSession => 9,
            GatewayOpCode::Hello => 10,
            GatewayOpCode::HeartbeatAck => 11,
            GatewayOpCode::StreamCreate => 18,
            GatewayOpCode::StreamDelete => 19,
            GatewayOpCode::StreamWatch => 20,
            GatewayOpCode::StreamPing => 21,
            GatewayOpCode::StreamSetPaused => 22,
        }
    }
}

} // verus!

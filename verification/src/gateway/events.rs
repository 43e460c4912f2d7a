//! The main gateway dispatch events that the streamer reads.
use vstd::prelude::*;
use crate::utils::str_eq;

verus! {

/// VOICE_STATE_UPDATE: the bot's own voice state changed.
#[derive(Debug, Clone)]
pub struct VoiceStateUpdate {
    pub user_id: String,
    pub session_id: String,
}

/// VOICE_SERVER_UPDATE: the voice server and its token.
#[derive(Debug, Clone)]
pub struct VoiceServerUpdate {
    pub guild_id: Option<String>,
    pub channel_id: Option<String>,
    pub endpoint: String,
    pub token: String,
}

/// STREAM_CREATE: a Go Live stream was created for the bot.
#[derive(Debug, Clone)]
pub struct StreamCreate {
    pub stream_key: String,
    pub rtc_server_id: String,
}

/// STREAM_SERVER_UPDATE: the stream's server and token.
#[derive(Debug, Clone)]
pub struct StreamServerUpdate {
    pub stream_key: String,
    pub endpoint: String,
    pub token: String,
}

/// A dispatch event of the main gateway, as far as the streamer reads it.
#[derive(Debug, Clone)]
pub enum GatewayEvent {
    VoiceStateUpdate(VoiceStateUpdate),
    VoiceServerUpdate(VoiceServerUpdate),
    StreamCreate(StreamCreate),
    StreamServerUpdate(StreamServerUpdate),
    /// Any other dispatch event; holds its name.
    Unknown(String),
}

/// The dispatch events that carry a payload the streamer reads.
#[derive(Debug, Clone, Copy, PartialEq, Eq, Structural)]
pub enum DispatchKind {
    VoiceStateUpdate,
    VoiceServerUpdate,
    StreamCreate,
    StreamServerUpdate,
}

/// The kind of the dispatch event named `name`, if the streamer reads it.
pub open spec fn spec_dispatch_kind(name: Seq<char>) -> Option<DispatchKind> {
    if name == "VOICE_STATE_UPDATE"@ {
        Some(DispatchKind::VoiceStateUpdate)
    } else if name == "VOICE_SERVER_UPDATE"@ {
        Some(DispatchKind::VoiceServerUpdate)
    } else if name == "STREAM_CREATE"@ {
        Some(DispatchKind::StreamCreate)
    } else if name == "STREAM_SERVER_UPDATE"@ {
        Some(DispatchKind::StreamServerUpdate)
    } else {
        None
    }
}

/// The kind of the dispatch event named `name` (its `t` field), if the streamer
/// reads it; its payload is then decoded into that kind's struct, and an event
/// whose payload does not decode is [`GatewayEvent::Unknown`].
pub fn dispatch_kind(name: &str) -> (r: Option<DispatchKind>)
    ensures
        r == spec_dispatch_kind(name@),
{
    if str_eq(name, "VOICE_STATE_UPDATE") {
        Some(DispatchKind::VoiceStateUpdate)
    } else if str_eq(name, "VOICE_SERVER_UPDATE") {
        Some(DispatchKind::VoiceServerUpdate)
    } else if str_eq(name, "STREAM_CREATE") {
        Some(DispatchKind::StreamCreate)
    } else if str_eq(name, "STREAM_SERVER_UPDATE") {
        Some(DispatchKind::StreamServerUpdate)
    } else {
        None
    }
}

} // verus!

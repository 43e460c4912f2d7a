//! The second voice connection that carries a Go Live stream.
use vstd::prelude::*;
use crate::utils::{parse_u64, spec_parse_u64};
use crate::voice::connection::VoiceConnection;

verus! {

/// A Go Live stream connection: a voice connection of its own, with the stream key
/// and the RTC server that Discord assigned to the stream.
pub struct StreamConnection {
    /// The voice connection that carries the stream.
    pub inner: VoiceConnection,
    /// The stream key, e.g. `guild:<guild>:<channel>:<user>`.
    pub stream_key: Option<String>,
    /// The RTC server id of the stream.
    pub server_id: Option<String>,
}

impl StreamConnection {
    /// A stream connection for `bot_id` in `channel_id` of `guild_id`, with no
    /// stream key or server yet.
    pub fn new(guild_id: Option<String>, channel_id: String, bot_id: String) -> (r: Self)
        ensures
            r.inner.guild() == guild_id,
            r.inner.channel() == channel_id,
            r.inner.bot() == bot_id,
            r.inner.session() is None,
            r.inner.token_of() is None,
            r.inner.server_of() is None,
            r.inner.last_seq() == -1,
            !r.inner.dave_of().has_session(),
            r.inner.users().len() == 0,
            r.inner.pending().is_empty(),
            r.inner.stream_of() is None,
            r.stream_key is None,
            r.server_id is None,
    {
        StreamConnection {
            inner: VoiceConnection::new(guild_id, channel_id, bot_id),
            stream_key: None,
            server_id: None,
        }
    }

    /// The DAVE channel id of a stream: its RTC server id less one (not below 0),
    /// when the server id is known and reads as a number.
    pub fn dave_channel_id(&self) -> (r: Option<u64>)
        ensures
            r == match self.server_id {
                Some(s) => match spec_parse_u64(s@) {
                    Some(id) => Some(if id == 0 { 0u64 } else { (id - 1) as u64 }),
                    None => None,
                },
                None => None,
            },
    {
        match &self.server_id {
            Some(s) => match parse_u64(s.as_str()) {
                Some(id) => Some(id.saturating_sub(1)),
                None => None,
            },
            None => None,
        }
    }

    /// The RTC server id, which a stream connection identifies with.
    pub fn server_id(&self) -> (r: Option<&str>)
        ensures
            match self.server_id {
                Some(s) => r is Some && r->Some_0@ == s@,
                None => r is None,
            },
    {
        match &self.server_id {
            Some(s) => Some(s.as_str()),
            None => None,
        }
    }
}

} // verus!

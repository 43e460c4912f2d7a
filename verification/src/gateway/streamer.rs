//! The streamer: what the bot asks of the main gateway, and what it makes of the
//! main gateway's dispatch events for its voice and stream connections.
use vstd::prelude::*;
use crate::gateway::events::{GatewayEvent, VoiceServerUpdate, VoiceStateUpdate};
use crate::gateway::opcodes::GatewayOpCode;
use crate::utils::{parse_stream_key, spec_parse_stream_key, str_eq};
use crate::voice::connection::{ConnectionError, ConnectionStatus, VoiceConnection};
use crate::voice::stream_connection::StreamConnection;

verus! {

/// Why the streamer could not do what was asked.
#[derive(Debug)]
pub enum StreamerError {
    NotLoggedIn,
    NotInVoice,
    NoSession,
    Connection(ConnectionError),
}

/// The voice state the bot asks the main gateway for.
#[derive(Debug, Clone)]
pub struct VoiceStateData {
    pub guild_id: Option<String>,
    pub channel_id: Option<String>,
    pub self_mute: bool,
    pub self_deaf: bool,
    pub self_video: bool,
}

/// A message for the main gateway; the owner of its WebSocket sends it.
#[derive(Debug, Clone)]
pub struct GatewayPayload {
    pub op: u8,
    pub d: VoiceStateData,
}

/// What the streamer keeps: the bot's user id and its voice connection, if any.
pub struct Streamer {
    user_id: String,
    voice_connection: Option<VoiceConnection>,
}

/// `after` is the connection `before` with a session id of the text `session_id`
/// set, as [`VoiceConnection::set_session`] does.
pub open spec fn session_set(before: VoiceConnection, after: VoiceConnection, session_id: Seq<char>) -> bool {
    &&& after.session() is Some && after.session()->Some_0@ == session_id
    &&& after.status_of() == (ConnectionStatus { has_session: true, ..before.status_of() })
    &&& after.guild() == before.guild()
    &&& after.channel() == before.channel()
    &&& after.bot() == before.bot()
    &&& after.token_of() == before.token_of()
    &&& after.server_of() == before.server_of()
    &&& after.last_seq() == before.last_seq()
    &&& after.dave_of() == before.dave_of()
    &&& after.users() == before.users()
    &&& after.pending() == before.pending()
    &&& after.stream_of() == before.stream_of()
}

/// `after` is `before` with the voice server and token set, as
/// [`VoiceConnection::set_tokens`] does.
pub open spec fn tokens_set(before: VoiceConnection, after: VoiceConnection, server: String, token: String) -> bool {
    &&& after.server_of() == Some(server)
    &&& after.token_of() == Some(token)
    &&& after.status_of() == (ConnectionStatus { has_token: true, ..before.status_of() })
    &&& after.guild() == before.guild()
    &&& after.channel() == before.channel()
    &&& after.bot() == before.bot()
    &&& after.session() == before.session()
    &&& after.last_seq() == before.last_seq()
    &&& after.dave_of() == before.dave_of()
    &&& after.users() == before.users()
    &&& after.pending() == before.pending()
    &&& after.stream_of() == before.stream_of()
}

/// `after` is `before` with only its attached stream connection changed to `stream`.
pub open spec fn stream_replaced(before: VoiceConnection, after: VoiceConnection, stream: StreamConnection) -> bool {
    &&& after.same_identity_but_stream(&before)
    &&& after.stream_of() == Some(Box::new(stream))
}

/// What a dispatch event does to the streamer and whether the voice connection
/// can start afterwards; see [`Streamer::handle_event`].
pub open spec fn event_outcome(before: Streamer, after: Streamer, event: GatewayEvent, r: bool) -> bool {
    &&& after.user() == before.user()
    &&& after.voice() is Some <==> before.voice() is Some
    &&& match event {
        GatewayEvent::VoiceStateUpdate(d) => !r && if d.user_id@ == before.user()@ && before.voice() is Some {
            session_set(before.voice()->Some_0, after.voice()->Some_0, d.session_id@)
        } else {
            after.voice() == before.voice()
        },
        GatewayEvent::VoiceServerUpdate(d) => match before.voice() {
            Some(vc) => {
                let vc_after = after.voice()->Some_0;
                &&& tokens_set(vc, vc_after, d.endpoint, d.token)
                &&& r == (vc_after.status_of().has_session && vc_after.status_of().has_token
                    && !vc_after.status_of().started)
            },
            None => !r && after.voice() is None,
        },
        GatewayEvent::StreamCreate(d) => !r && match before.voice() {
            Some(vc) => if spec_parse_stream_key(d.stream_key@) is Ok && vc.stream_of() is Some {
                let sc = *vc.stream_of()->Some_0;
                let vc_after = after.voice()->Some_0;
                let sc_after = *vc_after.stream_of()->Some_0;
                &&& stream_replaced(vc, vc_after, sc_after)
                &&& sc_after.server_id == Some(d.rtc_server_id)
                &&& sc_after.stream_key == Some(d.stream_key)
                &&& match vc.session() {
                    Some(sid) => session_set(sc.inner, sc_after.inner, sid@),
                    None => sc_after.inner == sc.inner,
                }
            } else {
                after.voice() == before.voice()
            },
            None => after.voice() is None,
        },
        GatewayEvent::StreamServerUpdate(d) => !r && match before.voice() {
            Some(vc) => if vc.stream_of() is Some {
                let sc = *vc.stream_of()->Some_0;
                let vc_after = after.voice()->Some_0;
                let sc_after = *vc_after.stream_of()->Some_0;
                &&& stream_replaced(vc, vc_after, sc_after)
                &&& tokens_set(sc.inner, sc_after.inner, d.endpoint, d.token)
                &&& sc_after.server_id == sc.server_id
                &&& sc_after.stream_key == sc.stream_key
            } else {
                after.voice() == before.voice()
            },
            None => after.voice() is None,
        },
        GatewayEvent::Unknown(_) => !r && after.voice() == before.voice(),
    }
}

/// The VOICE_STATE_UPDATE request.
fn voice_state_payload(
    guild_id: Option<String>,
    channel_id: Option<String>,
    self_mute: bool,
    self_deaf: bool,
    self_video: bool,
) -> (r: GatewayPayload)
    ensures
        r.op == GatewayOpCode::VoiceStateUpdate.value(),
        r.d == (VoiceStateData { guild_id, channel_id, self_mute, self_deaf, self_video }),
{
    GatewayPayload {
        op: GatewayOpCode::VoiceStateUpdate.as_u8(),
        d: VoiceStateData { guild_id, channel_id, self_mute, self_deaf, self_video },
    }
}

impl Streamer {
    /// The bot's user id.
    pub closed spec fn user(&self) -> String {
        self.user_id
    }

    /// The voice connection, if the bot joined a channel.
    pub closed spec fn voice(&self) -> Option<VoiceConnection> {
        self.voice_connection
    }

    /// A streamer for the bot `user_id`, in no channel.
    pub fn new(user_id: String) -> (r: Self)
        ensures
            r.user() == user_id,
            r.voice() is None,
    {
        Streamer { user_id, voice_connection: None }
    }

    /// The voice connection, to drive it.
    pub fn voice_connection_mut(&mut self) -> (r: Option<&mut VoiceConnection>)
        ensures
            r is Some <==> old(self).voice() is Some,
            r matches Some(vc) ==> *vc == old(self).voice()->Some_0 && final(self).voice() == Some(
                *final(vc),
            ),
            r is None ==> final(self).voice() is None,
            final(self).user() == old(self).user(),
    {
        match &mut self.voice_connection {
            Some(vc) => Some(vc),
            None => None,
        }
    }

    /// Joins `channel_id` (of `guild_id`, or a DM call): a new voice connection for
    /// the bot, and the request to join, unmuted, deafened and without video.
    pub fn join_voice(&mut self, guild_id: Option<String>, channel_id: String) -> (r: GatewayPayload)
        ensures
            final(self).user() == old(self).user(),
            final(self).voice() matches Some(vc) && vc.guild() == guild_id && vc.channel() == channel_id
                && vc.bot() == old(self).user() && vc.session() is None && vc.token_of() is None
                && vc.server_of() is None && vc.stream_of() is None,
            r.op == 4,
            r.d == (VoiceStateData {
                guild_id,
                channel_id: Some(channel_id),
                self_mute: false,
                self_deaf: true,
                self_video: false,
            }),
    {
        let conn = VoiceConnection::new(guild_id.clone(), channel_id.clone(), self.user_id.clone());
        self.voice_connection = Some(conn);
        voice_state_payload(guild_id, Some(channel_id), false, true, false)
    }

    /// Applies a dispatch event of the main gateway and says whether the voice
    /// connection now has both credentials and can start:
    /// - VOICE_STATE_UPDATE for the bot gives the voice connection its session id;
    /// - VOICE_SERVER_UPDATE gives it its server and token;
    /// - STREAM_CREATE with a valid stream key gives the attached stream connection
    ///   its server id, its key and the voice connection's session id, if any;
    /// - STREAM_SERVER_UPDATE gives the attached stream connection its server and
    ///   token.
    /// Without a voice connection (or stream connection) there is nothing to change.
    pub fn handle_event(&mut self, event: GatewayEvent) -> (r: bool)
        ensures
            event_outcome(*old(self), *final(self), event, r),
    {
        match event {
            GatewayEvent::VoiceStateUpdate(d) => {
                if !str_eq(d.user_id.as_str(), self.user_id.as_str()) {
                    return false;
                }
                if let Some(vc) = &mut self.voice_connection {
                    vc.set_session(d.session_id);
                }
                false
            },
            GatewayEvent::VoiceServerUpdate(d) => {
                match &mut self.voice_connection {
                    Some(vc) => {
                        vc.set_tokens(d.endpoint, d.token);
                        vc.can_start()
                    },
                    None => false,
                }
            },
            GatewayEvent::StreamCreate(d) => {
                if let Ok(_parsed) = parse_stream_key(d.stream_key.as_str()) {
                    if let Some(vc) = &mut self.voice_connection {
                        let session_id: Option<String> = match vc.session_id() {
                            Some(s) => Some(s.to_owned()),
                            None => None,
                        };
                        if let Some(sc) = vc.stream_connection_mut() {
                            sc.server_id = Some(d.rtc_server_id);
                            sc.stream_key = Some(d.stream_key);
                            if let Some(sid) = session_id {
                                sc.inner.set_session(sid);
                            }
                        }
                    }
                }
                false
            },
            GatewayEvent::StreamServerUpdate(d) => {
                if let Some(vc) = &mut self.voice_connection {
                    if let Some(sc) = vc.stream_connection_mut() {
                        sc.inner.set_tokens(d.endpoint, d.token);
                    }
                }
                false
            },
            GatewayEvent::Unknown(_) => false,
        }
    }

    /// Starts a Go Live stream; the bot must be in a voice channel.
    pub fn create_stream(&mut self) -> (r: Result<(), StreamerError>)
        ensures
            final(self).user() == old(self).user(),
            final(self).voice() == old(self).voice(),
            old(self).voice() is None ==> r matches Err(StreamerError::NotInVoice),
            old(self).voice() is Some ==> r is Ok,
    {
        match &self.voice_connection {
            Some(_) => Ok(()),
            None => Err(StreamerError::NotInVoice),
        }
    }

    /// Stops the Go Live stream.
    pub fn stop_stream(&mut self) -> (r: Result<(), StreamerError>)
        ensures
            final(self).user() == old(self).user(),
            final(self).voice() == old(self).voice(),
            r is Ok,
    {
        Ok(())
    }

    /// Leaves the voice channel: the voice connection is dropped, and the request to
    /// leave (muted, undeafened, without video) is given.
    pub fn leave_voice(&mut self) -> (r: GatewayPayload)
        ensures
            final(self).user() == old(self).user(),
            final(self).voice() is None,
            r.op == 4,
            r.d == (VoiceStateData {
                guild_id: None,
                channel_id: None,
                self_mute: true,
                self_deaf: false,
                self_video: false,
            }),
    {
        self.voice_connection = None;
        voice_state_payload(None, None, true, false, false)
    }
}

/// Once the bot is in a voice channel that has not started, a VOICE_STATE_UPDATE
/// for the bot followed by a VOICE_SERVER_UPDATE leaves the voice connection able
/// to start.
pub proof fn lemma_credentials_allow_start(
    s0: Streamer,
    s1: Streamer,
    s2: Streamer,
    state: VoiceStateUpdate,
    server: VoiceServerUpdate,
    r1: bool,
    r2: bool,
)
    requires
        s0.voice() is Some,
        !s0.voice()->Some_0.status_of().started,
        state.user_id@ == s0.user()@,
        event_outcome(s0, s1, GatewayEvent::VoiceStateUpdate(state), r1),
        event_outcome(s1, s2, GatewayEvent::VoiceServerUpdate(server), r2),
    ensures
        r2,
{
}

} // verus!

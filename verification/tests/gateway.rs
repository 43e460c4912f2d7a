use discord_stream_rs::gateway::events::{
    dispatch_kind, DispatchKind, GatewayEvent, StreamCreate, StreamServerUpdate, VoiceServerUpdate,
    VoiceStateUpdate,
};
use discord_stream_rs::gateway::opcodes::GatewayOpCode;
use discord_stream_rs::gateway::streamer::{Streamer, StreamerError};
use discord_stream_rs::voice::stream_connection::StreamConnection;

fn state(user: &str, session: &str) -> GatewayEvent {
    GatewayEvent::VoiceStateUpdate(VoiceStateUpdate { user_id: user.to_string(), session_id: session.to_string() })
}

fn server() -> GatewayEvent {
    GatewayEvent::VoiceServerUpdate(VoiceServerUpdate {
        guild_id: Some("1".to_string()),
        channel_id: None,
        endpoint: "voice.example".to_string(),
        token: "tok".to_string(),
    })
}

#[test]
fn dispatch_names() {
    assert_eq!(dispatch_kind("VOICE_STATE_UPDATE"), Some(DispatchKind::VoiceStateUpdate));
    assert_eq!(dispatch_kind("VOICE_SERVER_UPDATE"), Some(DispatchKind::VoiceServerUpdate));
    assert_eq!(dispatch_kind("STREAM_CREATE"), Some(DispatchKind::StreamCreate));
    assert_eq!(dispatch_kind("STREAM_SERVER_UPDATE"), Some(DispatchKind::StreamServerUpdate));
    assert_eq!(dispatch_kind("MESSAGE_CREATE"), None);
}

#[test]
fn gateway_opcodes() {
    assert_eq!(GatewayOpCode::VoiceStateUpdate.as_u8(), 4);
    assert_eq!(GatewayOpCode::StreamCreate.as_u8(), 18);
    assert_eq!(GatewayOpCode::Dispatch.as_u8(), 0);
}

#[test]
fn join_voice_asks_to_join() {
    let mut s = Streamer::new("42".to_string());
    let p = s.join_voice(Some("1".to_string()), "2".to_string());
    assert_eq!(p.op, 4);
    assert_eq!(p.d.guild_id, Some("1".to_string()));
    assert_eq!(p.d.channel_id, Some("2".to_string()));
    assert!(!p.d.self_mute);
    assert!(p.d.self_deaf);
    assert!(!p.d.self_video);
    let vc = s.voice_connection_mut().unwrap();
    assert_eq!(vc.server_id(), "1");
}

#[test]
fn credentials_make_the_connection_startable() {
    let mut s = Streamer::new("42".to_string());
    assert!(!s.handle_event(server()));
    s.join_voice(Some("1".to_string()), "2".to_string());
    assert!(!s.handle_event(state("other", "x")));
    assert_eq!(s.voice_connection_mut().unwrap().session_id(), None);
    assert!(!s.handle_event(state("42", "sess")));
    assert_eq!(s.voice_connection_mut().unwrap().session_id(), Some("sess"));
    assert!(s.handle_event(server()));
    assert_eq!(s.voice_connection_mut().unwrap().gateway_url().unwrap(), "wss://voice.example/?v=8");
    assert!(!s.handle_event(GatewayEvent::Unknown("X".to_string())));
}

#[test]
fn stream_events_fill_the_stream_connection() {
    let mut s = Streamer::new("42".to_string());
    s.join_voice(Some("1".to_string()), "2".to_string());
    s.handle_event(state("42", "sess"));
    let create = GatewayEvent::StreamCreate(StreamCreate {
        stream_key: "guild:1:2:42".to_string(),
        rtc_server_id: "500".to_string(),
    });
    // Without an attached stream connection nothing happens.
    assert!(!s.handle_event(create.clone()));
    s.voice_connection_mut().unwrap().stream_connection =
        Some(Box::new(StreamConnection::new(Some("1".to_string()), "2".to_string(), "42".to_string())));
    assert!(!s.handle_event(create));
    {
        let sc = s.voice_connection_mut().unwrap().stream_connection_mut().unwrap();
        assert_eq!(sc.stream_key, Some("guild:1:2:42".to_string()));
        assert_eq!(sc.server_id(), Some("500"));
        assert_eq!(sc.dave_channel_id(), Some(499));
        assert_eq!(sc.inner.session_id(), Some("sess"));
        assert!(!sc.inner.can_start());
    }
    let bad = GatewayEvent::StreamCreate(StreamCreate { stream_key: "bogus:1".to_string(), rtc_server_id: "9".to_string() });
    s.handle_event(bad);
    assert_eq!(s.voice_connection_mut().unwrap().stream_connection_mut().unwrap().server_id(), Some("500"));
    let update = GatewayEvent::StreamServerUpdate(StreamServerUpdate {
        stream_key: "guild:1:2:42".to_string(),
        endpoint: "stream.example".to_string(),
        token: "t2".to_string(),
    });
    assert!(!s.handle_event(update));
    let sc = s.voice_connection_mut().unwrap().stream_connection_mut().unwrap();
    assert!(sc.inner.can_start());
    assert_eq!(sc.inner.gateway_url().unwrap(), "wss://stream.example/?v=8");
}

#[test]
fn streams_need_a_voice_channel() {
    let mut s = Streamer::new("42".to_string());
    assert!(matches!(s.create_stream(), Err(StreamerError::NotInVoice)));
    assert!(s.stop_stream().is_ok());
    s.join_voice(None, "2".to_string());
    assert!(s.create_stream().is_ok());
    let p = s.leave_voice();
    assert_eq!(p.op, 4);
    assert_eq!(p.d.guild_id, None);
    assert_eq!(p.d.channel_id, None);
    assert!(p.d.self_mute);
    assert!(!p.d.self_deaf);
    assert!(!p.d.self_video);
    assert!(s.voice_connection_mut().is_none());
    assert!(matches!(s.create_stream(), Err(StreamerError::NotInVoice)));
}

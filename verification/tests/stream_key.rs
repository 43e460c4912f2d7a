use discord_stream_rs::utils::{generate_stream_key, parse_stream_key, StreamKeyError, StreamType};

#[test]
fn generate_guild_stream_key() {
    let key = generate_stream_key(StreamType::Guild, Some("guild_id"), "channel_id", "user_id");
    assert_eq!(key, "guild:guild_id:channel_id:user_id");
}

#[test]
fn parse_guild_stream_key() {
    let parsed = parse_stream_key("guild:123:456:789").unwrap();
    assert_eq!(parsed.guild_id, Some("123".to_string()));
    assert_eq!(parsed.channel_id, "456");
    assert_eq!(parsed.user_id, "789");
    assert_eq!(parsed.kind, StreamType::Guild);
}

#[test]
fn parse_unknown_stream_key_kind() {
    match parse_stream_key("lobby:1:2") {
        Err(StreamKeyError::InvalidType(t)) => assert_eq!(t, "lobby"),
        _ => panic!("expected an invalid type"),
    }
}

#[test]
fn parse_call_stream_key() {
    let parsed = parse_stream_key("call:456:789").unwrap();
    assert_eq!(parsed.kind, StreamType::Call);
    assert_eq!(parsed.guild_id, None);
    assert_eq!(parsed.channel_id, "456");
    assert_eq!(parsed.user_id, "789");
}

#[test]
fn parse_too_short_stream_key() {
    match parse_stream_key("guild:1:2") {
        Err(StreamKeyError::TooShort(k)) => assert_eq!(k, "guild:1:2"),
        _ => panic!("expected a too short key"),
    }
    match parse_stream_key("call:1") {
        Err(StreamKeyError::TooShort(k)) => assert_eq!(k, "call:1"),
        _ => panic!("expected a too short key"),
    }
}

#[test]
fn generate_call_stream_key() {
    let key = generate_stream_key(StreamType::Call, None, "456", "789");
    assert_eq!(key, "call:456:789");
}

#[test]
fn generated_stream_key_parses_back() {
    let key = generate_stream_key(StreamType::Guild, Some("1"), "22", "333");
    let parsed = parse_stream_key(&key).unwrap();
    assert_eq!(parsed.kind, StreamType::Guild);
    assert_eq!(parsed.guild_id, Some("1".to_string()));
    assert_eq!(parsed.channel_id, "22");
    assert_eq!(parsed.user_id, "333");
}

#[test]
fn stream_type_names() {
    assert_eq!(StreamType::Guild.to_string(), "guild");
    assert_eq!(StreamType::Call.to_string(), "call");
}

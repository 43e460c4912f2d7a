use discord_stream_rs::voice::codec_payload::video_mime_type;
use discord_stream_rs::dave::DaveError;
use discord_stream_rs::voice::codec_payload::{all_video_codecs, av1, h264, h265, opus, video_codec_info, vp8, vp9};
use discord_stream_rs::voice::connection::{
    ConnectionError, GatewayCommand, MessageBody, VoiceAction, VoiceConnection, VoiceEvent, WebRtcParams,
};
use discord_stream_rs::voice::opcodes::{VoiceOpCode, VoiceOpCodeBinary};
use discord_stream_rs::voice::stream_connection::StreamConnection;
use discord_stream_rs::voice::types::{
    BinaryMessage, ClientDisconnect, ClientsConnect, DaveExecuteTransition, DavePrepareEpoch,
    DavePrepareTransition, Ready, ReadyStream, SelectProtocolAck,
};
use discord_stream_rs::utils::VideoCodec;

fn connection() -> VoiceConnection {
    VoiceConnection::new(Some("10".to_string()), "20".to_string(), "30".to_string())
}

#[test]
fn opcodes_round_trip() {
    for v in 0u8..=255 {
        if let Some(op) = VoiceOpCode::from_u8(v) {
            assert_eq!(op.as_u8(), v);
        }
        if let Some(op) = VoiceOpCodeBinary::from_u8(v) {
            assert_eq!(op.as_u8(), v);
        }
    }
    assert_eq!(VoiceOpCode::from_u8(10), None);
    assert_eq!(VoiceOpCode::from_u8(31), Some(VoiceOpCode::MlsInvalidCommitWelcome));
    assert_eq!(VoiceOpCodeBinary::from_u8(28), Some(VoiceOpCodeBinary::MlsCommitWelcome));
    assert_eq!(VoiceOpCodeBinary::from_u8(31), None);
}

#[test]
fn binary_frames() {
    let frame = BinaryMessage::encode(0x1234, 27, &[1, 2, 3]);
    assert_eq!(frame, vec![0x12, 0x34, 27, 1, 2, 3]);
    let parsed = BinaryMessage::parse(&frame).unwrap();
    assert_eq!(parsed.seq, 0x1234);
    assert_eq!(parsed.op, 27);
    assert_eq!(parsed.payload, vec![1, 2, 3]);
    assert!(BinaryMessage::parse(&[1, 2]).is_none());
    assert_eq!(BinaryMessage::parse(&[0, 1, 25]).unwrap().payload, Vec::<u8>::new());
}

#[test]
fn codec_payload_types() {
    assert_eq!(opus().payload_type, 120);
    assert_eq!(opus().clock_rate, 48_000);
    assert_eq!(h264().payload_type, 101);
    assert_eq!(h265().payload_type, 103);
    assert_eq!(vp8().payload_type, 105);
    assert_eq!(vp9().payload_type, 107);
    assert_eq!(av1().payload_type, 109);
    assert_eq!(h264().clock_rate, 90_000);
    assert_eq!(all_video_codecs().len(), 5);
    assert_eq!(video_codec_info(VideoCodec::Vp9).payload_type, 107);
}

#[test]
fn new_connection_identifies_with_guild() {
    let mut c = connection();
    assert_eq!(c.server_id(), "10");
    assert_eq!(c.session_id(), None);
    assert!(!c.can_start());
    assert!(matches!(c.gateway_url(), Err(ConnectionError::NotConnected)));
    c.set_session("sess".to_string());
    assert_eq!(c.session_id(), Some("sess"));
    assert!(!c.can_start());
    c.set_tokens("voice.example".to_string(), "tok".to_string());
    assert!(c.can_start());
    assert_eq!(c.gateway_url().unwrap(), "wss://voice.example/?v=8");
    match c.on_connected(false) {
        GatewayCommand::Identify { server_id, user_id, session_id, token, video, streams } => {
            assert_eq!(server_id, "10");
            assert_eq!(user_id, "30");
            assert_eq!(session_id, Some("sess".to_string()));
            assert_eq!(token, Some("tok".to_string()));
            assert!(video);
            assert_eq!(streams.len(), 1);
            assert_eq!(streams[0].kind, "screen");
            assert_eq!(streams[0].rid, "100");
            assert_eq!(streams[0].quality, 100);
        }
        other => panic!("unexpected {:?}", other),
    }
    assert!(!c.can_start());
}

#[test]
fn dm_connection_identifies_with_channel_and_resumes() {
    let mut c = VoiceConnection::new(None, "77".to_string(), "30".to_string());
    assert_eq!(c.server_id(), "77");
    let _ = c.handle_message(6, Some(41), MessageBody::Other).unwrap();
    match c.on_connected(true) {
        GatewayCommand::Resume { server_id, session_id, token, seq_ack } => {
            assert_eq!(server_id, "77");
            assert_eq!(session_id, None);
            assert_eq!(token, None);
            assert_eq!(seq_ack, 41);
        }
        other => panic!("unexpected {:?}", other),
    }
    match c.heartbeat(1000) {
        GatewayCommand::Heartbeat { t, seq_ack } => {
            assert_eq!(t, 1000);
            assert_eq!(seq_ack, 41);
        }
        other => panic!("unexpected {:?}", other),
    }
    assert_eq!(c.heartbeat(5).op(), VoiceOpCode::Heartbeat);
}

#[test]
fn ready_reports_webrtc_params() {
    let mut c = connection();
    let ready = Ready {
        ssrc: 1,
        ip: "1.2.3.4".to_string(),
        port: 5000,
        modes: vec!["aead_aes256_gcm_rtpsize".to_string()],
        streams: vec![ReadyStream { ssrc: 2, rtx_ssrc: 3 }],
    };
    let actions = c.handle_message(2, Some(1), MessageBody::Ready(ready)).unwrap();
    assert_eq!(actions.len(), 1);
    match &actions[0] {
        VoiceAction::Emit(VoiceEvent::Ready(WebRtcParams {
            address,
            port,
            audio_ssrc,
            video_ssrc,
            rtx_ssrc,
            supported_encryption_modes,
        })) => {
            assert_eq!(address, "1.2.3.4");
            assert_eq!(*port, 5000);
            assert_eq!(*audio_ssrc, 1);
            assert_eq!(*video_ssrc, 2);
            assert_eq!(*rtx_ssrc, 3);
            assert_eq!(supported_encryption_modes.len(), 1);
        }
        other => panic!("unexpected {:?}", other),
    }
}

#[test]
fn undecodable_ready_is_an_error() {
    let mut c = connection();
    match c.handle_message(2, None, MessageBody::Undecodable("bad".to_string())) {
        Err(ConnectionError::Json(m)) => assert_eq!(m, "bad"),
        other => panic!("unexpected {:?}", other),
    }
    // elsewhere an undecodable payload is ignored
    assert!(c.handle_message(11, None, MessageBody::Undecodable("bad".to_string())).unwrap().is_empty());
}

#[test]
fn select_protocol_ack_without_e2ee() {
    let mut c = connection();
    let ack = SelectProtocolAck { sdp: Some("v=0".to_string()), dave_protocol_version: None };
    let actions = c.handle_message(4, None, MessageBody::SelectProtocolAck(ack)).unwrap();
    assert_eq!(actions.len(), 1);
    match &actions[0] {
        VoiceAction::Emit(VoiceEvent::SelectProtocolAck { sdp, dave_version }) => {
            assert_eq!(sdp, "v=0");
            assert_eq!(*dave_version, 0);
        }
        other => panic!("unexpected {:?}", other),
    }
    let ack = SelectProtocolAck { sdp: None, dave_protocol_version: Some(1) };
    assert!(c.handle_message(4, None, MessageBody::SelectProtocolAck(ack)).unwrap().is_empty());
}

#[test]
fn select_protocol_ack_with_e2ee_sends_key_package() {
    let mut c = connection();
    let ack = SelectProtocolAck { sdp: Some("v=0".to_string()), dave_protocol_version: Some(1) };
    let actions = c.handle_message(4, None, MessageBody::SelectProtocolAck(ack)).unwrap();
    assert_eq!(actions.len(), 2);
    match &actions[0] {
        VoiceAction::SendBinary(frame) => {
            assert_eq!(&frame[..3], &[0, 0, 26]);
            assert!(frame.len() > 3);
        }
        other => panic!("unexpected {:?}", other),
    }
    assert!(matches!(&actions[1], VoiceAction::Emit(VoiceEvent::SelectProtocolAck { dave_version: 1, .. })));
}

#[test]
fn resumed_is_reported() {
    let mut c = connection();
    let actions = c.handle_message(9, None, MessageBody::Other).unwrap();
    assert_eq!(actions.len(), 1);
    assert!(matches!(actions[0], VoiceAction::Emit(VoiceEvent::Resumed)));
}

#[test]
fn users_join_and_leave_as_a_set() {
    let mut c = connection();
    let cc = ClientsConnect { user_ids: vec!["1".to_string(), "2".to_string(), "1".to_string(), "x".to_string()] };
    assert!(c.handle_message(11, None, MessageBody::ClientsConnect(cc)).unwrap().is_empty());
    assert_eq!(c.connected_user_ids(), vec![1, 2]);
    let cd = ClientDisconnect { user_id: "1".to_string() };
    assert!(c.handle_message(13, None, MessageBody::ClientDisconnect(cd)).unwrap().is_empty());
    assert_eq!(c.connected_user_ids(), vec![2]);
}

#[test]
fn prepared_transition_is_acknowledged() {
    let mut c = connection();
    let d = DavePrepareTransition { transition_id: 5, protocol_version: 1 };
    let actions = c.handle_message(21, None, MessageBody::DavePrepareTransition(d)).unwrap();
    assert_eq!(actions.len(), 1);
    assert!(matches!(actions[0], VoiceAction::Send(GatewayCommand::DaveTransitionReady { transition_id: 5 })));
    let e = DaveExecuteTransition { transition_id: 5 };
    assert!(c.handle_message(22, None, MessageBody::DaveExecuteTransition(e)).unwrap().is_empty());
    let d = DavePrepareTransition { transition_id: 0, protocol_version: 0 };
    assert!(c.handle_message(21, None, MessageBody::DavePrepareTransition(d)).unwrap().is_empty());
}

#[test]
fn prepare_epoch_one_sends_key_package() {
    let mut c = connection();
    let d = DavePrepareEpoch { epoch: 1, protocol_version: 1 };
    let actions = c.handle_message(24, None, MessageBody::DavePrepareEpoch(d)).unwrap();
    assert_eq!(actions.len(), 1);
    assert!(matches!(&actions[0], VoiceAction::SendBinary(f) if f[2] == 26));
    let d = DavePrepareEpoch { epoch: 2, protocol_version: 1 };
    assert!(c.handle_message(24, None, MessageBody::DavePrepareEpoch(d)).unwrap().is_empty());
}

#[test]
fn binary_frames_without_session() {
    let mut c = connection();
    assert!(c.handle_binary(&[0, 1]).unwrap().is_empty());
    assert!(c.handle_binary(&[0, 1, 25, 9, 9]).unwrap().is_empty());
    assert!(c.handle_binary(&[0, 2, 27, 0, 1, 2]).unwrap().is_empty());
    assert!(c.handle_binary(&[0, 2, 27]).unwrap().is_empty());
    let actions = c.handle_binary(&[0, 3, 29, 0, 7, 1, 2]).unwrap();
    assert_eq!(actions.len(), 1);
    assert!(matches!(actions[0], VoiceAction::Send(GatewayCommand::DaveTransitionReady { transition_id: 7 })));
    let actions = c.handle_binary(&[0, 4, 30, 0, 0, 1]).unwrap();
    assert!(actions.is_empty());
    assert!(c.handle_binary(&[0, 4, 30, 1]).unwrap().is_empty());
}

#[test]
fn invalid_commit_is_reported_and_reinitialized() {
    let mut c = connection();
    let ack = SelectProtocolAck { sdp: Some("v=0".to_string()), dave_protocol_version: Some(1) };
    c.handle_message(4, None, MessageBody::SelectProtocolAck(ack)).unwrap();
    // A welcome before any external sender cannot be processed.
    let actions = c.handle_binary(&[0, 5, 30, 0, 3, 0xFF, 0xFF]).unwrap();
    assert!(matches!(actions[0], VoiceAction::Send(GatewayCommand::MlsInvalidCommitWelcome { transition_id: 3 })));
    assert!(actions.len() <= 2);
    if actions.len() == 2 {
        assert!(matches!(&actions[1], VoiceAction::SendBinary(f) if f[..3] == [0, 0, 26]));
    }
}

#[test]
fn gateway_command_opcodes() {
    assert_eq!(GatewayCommand::DaveTransitionReady { transition_id: 1 }.op().as_u8(), 23);
    assert_eq!(GatewayCommand::MlsInvalidCommitWelcome { transition_id: 1 }.op().as_u8(), 31);
    assert_eq!(GatewayCommand::Heartbeat { t: 1, seq_ack: 1 }.op().as_u8(), 3);
}

#[test]
fn stream_connection_dave_channel() {
    let mut sc = StreamConnection::new(Some("1".to_string()), "2".to_string(), "3".to_string());
    assert_eq!(sc.dave_channel_id(), None);
    assert_eq!(sc.server_id(), None);
    sc.server_id = Some("100".to_string());
    assert_eq!(sc.dave_channel_id(), Some(99));
    assert_eq!(sc.server_id(), Some("100"));
    sc.server_id = Some("0".to_string());
    assert_eq!(sc.dave_channel_id(), Some(0));
    sc.server_id = Some("abc".to_string());
    assert_eq!(sc.dave_channel_id(), None);
}

#[test]
fn attached_stream_connection() {
    let mut c = connection();
    assert!(c.stream_connection_mut().is_none());
    c.stream_connection = Some(Box::new(StreamConnection::new(None, "2".to_string(), "3".to_string())));
    c.stream_connection_mut().unwrap().stream_key = Some("call:2:3".to_string());
    assert_eq!(c.stream_connection.as_ref().unwrap().stream_key, Some("call:2:3".to_string()));
}

#[test]
fn dave_error_messages() {
    assert_eq!(DaveError::Encrypt("x".to_string()).to_string(), "davey encrypt error: x");
    assert_eq!(DaveError::InvalidProtocolVersion.to_string(), "invalid protocol version: 0");
}

#[test]
fn video_mime_types() {
    assert_eq!(video_mime_type(&h264()), "video/H264");
}

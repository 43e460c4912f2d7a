use discord_stream_rs::dave::{
    expected_users, proposals_operation, DaveCodec, DaveError, DaveHandler, DaveMediaType,
    DaveSessionStatus, ProposalsOperation,
};

#[test]
fn handler_without_session_passes_frames_through() {
    let mut d = DaveHandler::new(1, 2);
    assert_eq!(d.protocol_version(), 0);
    assert!(d.is_passthrough());
    assert!(!d.is_ready());
    assert_eq!(d.status(), None);
    assert_eq!(d.voice_privacy_code(), None);
    assert_eq!(d.encrypt_opus(&[1, 2]).unwrap(), vec![1, 2]);
    assert_eq!(d.encrypt(DaveMediaType::Video, DaveCodec::H264, &[3]).unwrap(), vec![3]);
    assert_eq!(d.decrypt(9, DaveMediaType::Audio, &[4]).unwrap(), vec![4]);
    assert!(d.set_external_sender(&[1, 2, 3]).is_ok());
    assert!(d.process_proposals(0, &[1], &[]).unwrap().is_none());
    assert!(d.process_commit(&[1]).is_ok());
    assert!(d.process_welcome(&[1]).is_ok());
    d.set_passthrough_mode(true, Some(10));
    assert_eq!(d.init(0).unwrap(), None);
    assert_eq!(d.protocol_version(), 0);
}

#[test]
fn init_makes_a_session_and_key_package() {
    let mut d = DaveHandler::new(1, 2);
    let kp = d.init(1).unwrap().unwrap();
    assert!(!kp.is_empty());
    assert_eq!(d.protocol_version(), 1);
    assert!(!d.is_passthrough());
    assert_eq!(d.status(), Some(DaveSessionStatus::Inactive));
    assert!(!d.is_ready());
    // reinitializing gives a fresh key package
    let kp2 = d.init(1).unwrap().unwrap();
    assert!(!kp2.is_empty());
    // a downgrade resets the session but keeps it
    assert_eq!(d.init(0).unwrap(), None);
    assert!(d.is_passthrough());
    assert!(d.status().is_some());
}

#[test]
fn unsupported_version_fails_to_initialize() {
    let mut d = DaveHandler::new(1, 2);
    match d.init(99) {
        Err(DaveError::Init(_)) => {}
        other => panic!("unexpected {:?}", other),
    }
    assert_eq!(d.protocol_version(), 99);
    assert_eq!(d.status(), None);
}

#[test]
fn session_refuses_garbage() {
    let mut d = DaveHandler::new(1, 2);
    d.init(1).unwrap();
    assert!(matches!(d.set_external_sender(&[]), Err(DaveError::SetExternalSender(_))));
    assert!(matches!(d.process_welcome(&[0x05, 0x01]), Err(DaveError::ProcessWelcome(_))));
    assert!(matches!(d.process_proposals(0, &[0x05, 0x01], &[1]), Err(DaveError::ProcessProposals(_))));
}

#[test]
fn proposal_helpers() {
    assert_eq!(proposals_operation(0), ProposalsOperation::Append);
    assert_eq!(proposals_operation(1), ProposalsOperation::Revoke);
    assert_eq!(proposals_operation(7), ProposalsOperation::Append);
    assert_eq!(expected_users(&[]), None);
    assert_eq!(expected_users(&[5, 6]), Some(&[5u64, 6][..]));
}

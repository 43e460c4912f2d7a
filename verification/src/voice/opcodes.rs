//! Voice gateway opcodes: JSON messages and binary frames.
use vstd::prelude::*;

verus! {

/// Opcodes of JSON voice gateway messages.
#[derive(Debug, Clone, Copy, PartialEq, Eq, Structural)]
pub enum VoiceOpCode {
    Identify,
    SelectProtocol,
    Ready,
    Heartbeat,
    SelectProtocolAck,
    Speaking,
    HeartbeatAck,
    Resume,
    Hello,
    Resumed,
    ClientsConnect,
    Video,
    ClientDisconnect,
    SessionUpdate,
    MediaSinkWants,
    VoiceBackendVersion,
    ChannelOptionsUpdate,
    Flags,
    SpeedTest,
    Platform,
    DavePrepareTransition,
    DaveExecuteTransition,
    DaveTransitionReady,
    DavePrepareEpoch,
    MlsInvalidCommitWelcome,
}

impl VoiceOpCode {
    /// The opcode number.
    pub open spec fn value(self) -> u8 {
        match self {
            VoiceOpCode::Identify => 0,
            VoiceOpCode::SelectProtocol => 1,
            VoiceOpCode::Ready => 2,
            VoiceOpCode::Heartbeat => 3,
            VoiceOpCode::SelectProtocolAck => 4,
            VoiceOpCode::Speaking => 5,
            VoiceOpCode::HeartbeatAck => 6,
            VoiceOpCode::Resume => 7,
            VoiceOpCode::Hello => 8,
            VoiceOpCode::Resumed => 9,
            VoiceOpCode::ClientsConnect => 11,
            VoiceOpCode::Video => 12,
            VoiceOpCode::ClientDisconnect => 13,
            VoiceOpCode::SessionUpdate => 14,
            VoiceOpCode::MediaSinkWants => 15,
            VoiceOpCode::VoiceBackendVersion => 16,
            VoiceOpCode::ChannelOptionsUpdate => 17,
            VoiceOpCode::Flags => 18,
            VoiceOpCode::SpeedTest => 19,
            VoiceOpCode::Platform => 20,
            VoiceOpCode::DavePrepareTransition => 21,
            VoiceOpCode::DaveExecuteTransition => 22,
            VoiceOpCode::DaveTransitionReady => 23,
            VoiceOpCode::DavePrepareEpoch => 24,
            VoiceOpCode::MlsInvalidCommitWelcome => 31,
        }
    }

    /// The opcode number.
    pub fn as_u8(self) -> (r: u8)
        ensures
            r == self.value(),
    {
        match self {
            VoiceOpCode::Identify => 0,
            VoiceOpCode::SelectProtocol => 1,
            VoiceOpCode::Ready => 2,
            VoiceOpCode::Heartbeat => 3,
            VoiceOpCode::SelectProtocolAck => 4,
            VoiceOpCode::Speaking => 5,
            VoiceOpCode::HeartbeatAck => 6,
            VoiceOpCode::Resume => 7,
            VoiceOpCode::Hello => 8,
            VoiceOpCode::Resumed => 9,
            VoiceOpCode::ClientsConnect => 11,
            VoiceOpCode::Video => 12,
            VoiceOpCode::ClientDisconnect => 13,
            VoiceOpCode::SessionUpdate => 14,
            VoiceOpCode::MediaSinkWants => 15,
            VoiceOpCode::VoiceBackendVersion => 16,
            VoiceOpCode::ChannelOptionsUpdate => 17,
            VoiceOpCode::Flags => 18,
            VoiceOpCode::SpeedTest => 19,
            VoiceOpCode::Platform => 20,
            VoiceOpCode::DavePrepareTransition => 21,
            VoiceOpCode::DaveExecuteTransition => 22,
            VoiceOpCode::DaveTransitionReady => 23,
            VoiceOpCode::DavePrepareEpoch => 24,
            VoiceOpCode::MlsInvalidCommitWelcome => 31,
        }
    }

    /// The opcode with number `v`, if there is one.
    pub fn from_u8(v: u8) -> (r: Option<Self>)
        ensures
            r matches Some(op) ==> op.value() == v,
            r is None ==> forall|op: Self| op.value() != v,
    {
        match v {
            0 => Some(Self::Identify),
            1 => Some(Self::SelectProtocol),
            2 => Some(Self::Ready),
            3 => Some(Self::Heartbeat),
            4 => Some(Self::SelectProtocolAck),
            5 => Some(Self::Speaking),
            6 => Some(Self::HeartbeatAck),
            7 => Some(Self::Resume),
            8 => Some(Self::Hello),
            9 => Some(Self::Resumed),
            11 => Some(Self::ClientsConnect),
            12 => Some(Self::Video),
            13 => Some(Self::ClientDisconnect),
            14 => Some(Self::SessionUpdate),
            15 => Some(Self::MediaSinkWants),
            16 => Some(Self::VoiceBackendVersion),
            17 => Some(Self::ChannelOptionsUpdate),
            18 => Some(Self::Flags),
            19 => Some(Self::SpeedTest),
            20 => Some(Self::Platform),
            21 => Some(Self::DavePrepareTransition),
            22 => Some(Self::DaveExecuteTransition),
            23 => Some(Self::DaveTransitionReady),
            24 => Some(Self::DavePrepareEpoch),
            31 => Some(Self::MlsInvalidCommitWelcome),
            _ => None,
        }
    }
}

/// Opcodes of binary voice gateway frames (after a 2-byte sequence number).
#[derive(Debug, Clone, Copy, PartialEq, Eq, Structural)]
pub enum VoiceOpCodeBinary {
    MlsExternalSender,
    MlsKeyPackage,
    MlsProposals,
    MlsCommitWelcome,
    MlsAnnounceCommitTransition,
    MlsWelcome,
}

impl VoiceOpCodeBinary {
    /// The opcode number.
    pub open spec fn value(self) -> u8 {
        match self {
            VoiceOpCodeBinary::MlsExternalSender => 25,
            VoiceOpCodeBinary::MlsKeyPackage => 26,
            VoiceOpCodeBinary::MlsProposals => 27,
            VoiceOpCodeBinary::MlsCommitWelcome => 28,
            VoiceOpCodeBinary::MlsAnnounceCommitTransition => 29,
            VoiceOpCodeBinary::MlsWelcome => 30,
        }
    }

    /// The opcode number.
    pub fn as_u8(self) -> (r: u8)
        ensures
            r == self.value(),
    {
        match self {
            VoiceOpCodeBinary::MlsExternalSender => 25,
            VoiceOpCodeBinary::MlsKeyPackage => 26,
            VoiceOpCodeBinary::MlsProposals => 27,
            VoiceOpCodeBinary::MlsCommitWelcome => 28,
            VoiceOpCodeBinary::MlsAnnounceCommitTransition => 29,
            VoiceOpCodeBinary::MlsWelcome => 30,
        }
    }

    /// The opcode with number `v`, if there is one.
    pub fn from_u8(v: u8) -> (r: Option<Self>)
        ensures
            r matches Some(op) ==> op.value() == v,
            r is None ==> forall|op: Self| op.value() != v,
    {
        match v {
            25 => Some(Self::MlsExternalSender),
            26 => Some(Self::MlsKeyPackage),
            27 => Some(Self::MlsProposals),
            28 => Some(Self::MlsCommitWelcome),
            29 => Some(Self::MlsAnnounceCommitTransition),
            30 => Some(Self::MlsWelcome),
            _ => None,
        }
    }
}

/// Every JSON voice opcode reads back from its number, and no two share a number.
pub proof fn lemma_voice_opcode_roundtrip(op: VoiceOpCode)
    ensures
        forall|other: VoiceOpCode| other.value() == op.value() ==> other == op,
{
}

/// Every binary voice opcode reads back from its number, and no two share a number.
pub proof fn lemma_voice_opcode_binary_roundtrip(op: VoiceOpCodeBinary)
    ensures
        forall|other: VoiceOpCodeBinary| other.value() == op.value() ==> other == op,
        25 <= op.value() <= 30,
{
}

} // verus!

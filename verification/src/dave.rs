//! The DAVE end-to-end encryption session of a voice connection, kept over the
//! `davey` crate's MLS session.
use vstd::prelude::*;
use vstd::string::*;
use davey::errors::{
    CreateKeyPackageError, DecryptError, EncryptError, InitError, ProcessCommitError,
    ProcessProposalsError, ProcessWelcomeError, ReinitError, ResetError, SetExternalSenderError,
};
use davey::{Codec, DaveSession, MediaType, ProposalsOperationType, SessionStatus};
use std::num::NonZeroU16;

verus! {

#[verifier::external_type_specification]
#[verifier::external_body]
pub struct ExDaveSession(DaveSession);

#[verifier::external_type_specification]
#[verifier::external_body]
pub struct ExInitError(InitError);

#[verifier::external_type_specification]
#[verifier::external_body]
pub struct ExReinitError(ReinitError);

#[verifier::external_type_specification]
#[verifier::external_body]
pub struct ExResetError(ResetError);

#[verifier::external_type_specification]
#[verifier::external_body]
pub struct ExCreateKeyPackageError(CreateKeyPackageError);

#[verifier::external_type_specification]
#[verifier::external_body]
pub struct ExSetExternalSenderError(SetExternalSenderError);

#[verifier::external_type_specification]
#[verifier::external_body]
pub struct ExProcessProposalsError(ProcessProposalsError);

#[verifier::external_type_specification]
#[verifier::external_body]
pub struct ExProcessCommitError(ProcessCommitError);

#[verifier::external_type_specification]
#[verifier::external_body]
pub struct ExProcessWelcomeError(ProcessWelcomeError);

#[verifier::external_type_specification]
#[verifier::external_body]
pub struct ExEncryptError(EncryptError);

#[verifier::external_type_specification]
#[verifier::external_body]
pub struct ExDecryptError(DecryptError);

/// The kind of media a frame carries.
#[derive(Debug, Clone, Copy, PartialEq, Eq, Structural)]
pub enum DaveMediaType {
    Audio,
    Video,
}

/// The codec of a frame, which decides which of its bytes stay unencrypted.
#[derive(Debug, Clone, Copy, PartialEq, Eq, Structural)]
pub enum DaveCodec {
    Unknown,
    Opus,
    Vp8,
    Vp9,
    H264,
    H265,
    Av1,
}

/// How far the MLS group of a session has come.
#[derive(Debug, Clone, Copy, PartialEq, Eq, Structural)]
pub enum DaveSessionStatus {
    Inactive,
    Pending,
    AwaitingResponse,
    Active,
}

/// Whether a batch of MLS proposals adds to or revokes from the pending ones.
#[derive(Debug, Clone, Copy, PartialEq, Eq, Structural)]
pub enum ProposalsOperation {
    Append,
    Revoke,
}

/// The MLS commit, and the welcome when there is one, to send back to the gateway.
#[derive(Debug, Clone)]
pub struct CommitWelcome {
    /// The serialized commit.
    pub commit: Vec<u8>,
    /// The serialized welcome, sent after the commit.
    pub welcome: Option<Vec<u8>>,
}

/// Why a DAVE operation failed; each carries the session's own message.
#[derive(Debug)]
pub enum DaveError {
    Init(String),
    Reinit(String),
    Reset(String),
    KeyPackage(String),
    SetExternalSender(String),
    ProcessProposals(String),
    ProcessCommit(String),
    ProcessWelcome(String),
    Encrypt(String),
    Decrypt(String),
    InvalidProtocolVersion,
}

impl DaveError {
    /// The error's message.
    pub open spec fn text(&self) -> Seq<char> {
        match self {
            DaveError::Init(m) => "davey init error: "@ + m@,
            DaveError::Reinit(m) => "davey reinit error: "@ + m@,
            DaveError::Reset(m) => "davey reset error: "@ + m@,
            DaveError::KeyPackage(m) => "davey key package error: "@ + m@,
            DaveError::SetExternalSender(m) => "davey set external sender error: "@ + m@,
            DaveError::ProcessProposals(m) => "davey process proposals error: "@ + m@,
            DaveError::ProcessCommit(m) => "davey process commit error: "@ + m@,
            DaveError::ProcessWelcome(m) => "davey process welcome error: "@ + m@,
            DaveError::Encrypt(m) => "davey encrypt error: "@ + m@,
            DaveError::Decrypt(m) => "davey decrypt error: "@ + m@,
            DaveError::InvalidProtocolVersion => "invalid protocol version: 0"@,
        }
    }

    /// The error's message.
    pub fn to_string(&self) -> (r: String)
        ensures
            r@ == self.text(),
    {
        let (prefix, m): (&str, &str) = match self {
            DaveError::Init(m) => ("davey init error: ", m.as_str()),
            DaveError::Reinit(m) => ("davey reinit error: ", m.as_str()),
            DaveError::Reset(m) => ("davey reset error: ", m.as_str()),
            DaveError::KeyPackage(m) => ("davey key package error: ", m.as_str()),
            DaveError::SetExternalSender(m) => ("davey set external sender error: ", m.as_str()),
            DaveError::ProcessProposals(m) => ("davey process proposals error: ", m.as_str()),
            DaveError::ProcessCommit(m) => ("davey process commit error: ", m.as_str()),
            DaveError::ProcessWelcome(m) => ("davey process welcome error: ", m.as_str()),
            DaveError::Encrypt(m) => ("davey encrypt error: ", m.as_str()),
            DaveError::Decrypt(m) => ("davey decrypt error: ", m.as_str()),
            DaveError::InvalidProtocolVersion => ("invalid protocol version: 0", ""),
        };
        let mut s = String::from_str(prefix);
        s.append(m);
        proof {
            reveal_strlit("");
            assert("invalid protocol version: 0"@ + ""@ =~= "invalid protocol version: 0"@);
        }
        s
    }
}

/// A request handed to the MLS session, with what the session answered.
pub enum DaveRequest {
    /// The session was made for a protocol version, user and channel.
    Create { version: u16, user: u64, channel: u64 },
    /// The session was made again; `ok` says whether it could be.
    Reinit { version: u16, user: u64, channel: u64, ok: bool },
    /// The session was reset; `ok` says whether it could be.
    Reset { ok: bool },
    /// A key package was asked for; the package, if one came.
    KeyPackage { package: Option<Seq<u8>> },
    /// The external sender package; `ok` says whether it was taken.
    ExternalSender { data: Seq<u8>, ok: bool },
    /// Proposals with their operation and the users they are checked against; the
    /// answer is `None` on failure, else the commit and welcome, if any.
    Proposals {
        operation: ProposalsOperation,
        proposals: Seq<u8>,
        users: Option<Seq<u64>>,
        answer: Option<Option<(Seq<u8>, Option<Seq<u8>>)>>,
    },
    /// An announced commit; `ok` says whether it was processed.
    Commit { data: Seq<u8>, ok: bool },
    /// A welcome; `ok` says whether it was processed.
    Welcome { data: Seq<u8>, ok: bool },
    /// An Opus frame to encrypt; the encrypted frame, if encryption succeeded.
    EncryptOpus { frame: Seq<u8>, out: Option<Seq<u8>> },
    /// A frame of a media type and codec to encrypt; the encrypted frame, if any.
    Encrypt { media: DaveMediaType, codec: DaveCodec, frame: Seq<u8>, out: Option<Seq<u8>> },
    /// A frame from a user to decrypt; the decrypted frame, if any.
    Decrypt { user: u64, media: DaveMediaType, frame: Seq<u8>, out: Option<Seq<u8>> },
}

/// The bytes of a successful result, `None` for a failure.
pub open spec fn bytes_of<E>(r: Result<Vec<u8>, E>) -> Option<Seq<u8>> {
    match r {
        Ok(v) => Some(v@),
        Err(_) => None,
    }
}

/// The commit and welcome bytes of a commit-welcome.
pub open spec fn commit_welcome_view(cw: CommitWelcome) -> (Seq<u8>, Option<Seq<u8>>) {
    (
        cw.commit@,
        match cw.welcome {
            Some(w) => Some(w@),
            None => None,
        },
    )
}

/// The answer to proposals as the request record keeps it.
pub open spec fn answer_of<E>(r: Result<Option<CommitWelcome>, E>) -> Option<Option<(Seq<u8>, Option<Seq<u8>>)>> {
    match r {
        Ok(Some(cw)) => Some(Some(commit_welcome_view(cw))),
        Ok(None) => Some(None),
        Err(_) => None,
    }
}

/// The users a list of user ids stands for: none at all when it is absent.
pub open spec fn users_view(users: Option<&[u64]>) -> Option<Seq<u64>> {
    match users {
        Some(u) => Some(u@),
        None => None,
    }
}

/// A `davey` MLS session with a record of what it was handed: the requests and
/// their answers, the passthrough settings, and the session's own ready flag.
/// Only the functions that call the session below say how the record changes.
pub struct MlsSession {
    session: DaveSession,
    requests: Ghost<Seq<DaveRequest>>,
    passthroughs: Ghost<Seq<(bool, Option<u32>)>>,
    ready: Ghost<bool>,
    status: Ghost<DaveSessionStatus>,
    privacy_code: Ghost<Option<Seq<char>>>,
}

impl MlsSession {
    /// Every request handed to the session with its answer, oldest first.
    pub closed spec fn requests(&self) -> Seq<DaveRequest> {
        self.requests@
    }

    /// Every passthrough setting (enabled, expiry in seconds) handed to the
    /// session, oldest first.
    pub closed spec fn passthroughs(&self) -> Seq<(bool, Option<u32>)> {
        self.passthroughs@
    }

    /// Whether the session can encrypt and decrypt frames (its `is_ready` flag).
    pub closed spec fn ready(&self) -> bool {
        self.ready@
    }

    /// How far the session's MLS group has come (its `status`).
    pub closed spec fn status(&self) -> DaveSessionStatus {
        self.status@
    }

    /// The group's voice privacy code, while there is one (its `voice_privacy_code`).
    pub closed spec fn privacy_code(&self) -> Option<Seq<char>> {
        self.privacy_code@
    }

    /// `after` is this session after it was handed `request`: that is recorded,
    /// and the passthrough settings are unchanged.
    pub open spec fn answered(&self, after: &Self, request: DaveRequest) -> bool {
        &&& after.requests() == self.requests().push(request)
        &&& after.passthroughs() == self.passthroughs()
    }
}

/// `DaveSession::new` of `davey`, with no signing key pair (the session makes one).
/// A new session has been handed only its making. Nothing is claimed of whether it
/// succeeds: the key pair is random.
#[verifier::external_body]
fn session_new(protocol_version: u16, user_id: u64, channel_id: u64) -> (r: Result<MlsSession, InitError>)
    requires
        protocol_version != 0,
    ensures
        r matches Ok(s) ==> s.requests() == seq![
            DaveRequest::Create { version: protocol_version, user: user_id, channel: channel_id },
        ] && s.passthroughs() == Seq::<(bool, Option<u32>)>::empty(),
{
    match DaveSession::new(NonZeroU16::new(protocol_version).unwrap(), user_id, channel_id, None) {
        Ok(session) => Ok(
            MlsSession {
                session,
                requests: Ghost(Seq::empty()),
                passthroughs: Ghost(Seq::empty()),
                ready: Ghost(false),
                status: Ghost(DaveSessionStatus::Inactive),
                privacy_code: Ghost(None),
            },
        ),
        Err(e) => Err(e),
    }
}

/// `DaveSession::reinit` of `davey`, with no signing key pair. Whether it
/// succeeds is not claimed; the request and its outcome are recorded.
#[verifier::external_body]
fn session_reinit(s: &mut MlsSession, protocol_version: u16, user_id: u64, channel_id: u64) -> (r: Result<
    (),
    ReinitError,
>)
    requires
        protocol_version != 0,
    ensures
        old(s).answered(
            &*final(s),
            DaveRequest::Reinit { version: protocol_version, user: user_id, channel: channel_id, ok: r is Ok },
        ),
{
    s.session.reinit(NonZeroU16::new(protocol_version).unwrap(), user_id, channel_id, None)
}

/// `DaveSession::reset` of `davey`. Whether it succeeds is not claimed; the
/// request and its outcome are recorded.
#[verifier::external_body]
fn session_reset(s: &mut MlsSession) -> (r: Result<(), ResetError>)
    ensures
        old(s).answered(&*final(s), DaveRequest::Reset { ok: r is Ok }),
{
    s.session.reset()
}

/// `DaveSession::create_key_package` of `davey`. The package holds fresh random
/// keys, so only the request and what came back are recorded.
#[verifier::external_body]
fn session_create_key_package(s: &mut MlsSession) -> (r: Result<Vec<u8>, CreateKeyPackageError>)
    ensures
        old(s).answered(&*final(s), DaveRequest::KeyPackage { package: bytes_of(r) }),
{
    s.session.create_key_package()
}

/// `DaveSession::set_external_sender` of `davey`. Whether the package is taken
/// depends on the group's state; the request and its outcome are recorded.
#[verifier::external_body]
fn session_set_external_sender(s: &mut MlsSession, data: &[u8]) -> (r: Result<(), SetExternalSenderError>)
    ensures
        old(s).answered(&*final(s), DaveRequest::ExternalSender { data: data@, ok: r is Ok }),
{
    s.session.set_external_sender(data)
}

/// `DaveSession::process_proposals` of `davey`; the commit and welcome are moved
/// into the library's own struct. The answer depends on the group's state; the
/// request and the answer are recorded.
#[verifier::external_body]
fn session_process_proposals(
    s: &mut MlsSession,
    operation: ProposalsOperation,
    proposals: &[u8],
    expected_user_ids: Option<&[u64]>,
) -> (r: Result<Option<CommitWelcome>, ProcessProposalsError>)
    ensures
        old(s).answered(
            &*final(s),
            DaveRequest::Proposals {
                operation,
                proposals: proposals@,
                users: users_view(expected_user_ids),
                answer: answer_of(r),
            },
        ),
{
    let operation = match operation {
        ProposalsOperation::Append => ProposalsOperationType::APPEND,
        ProposalsOperation::Revoke => ProposalsOperationType::REVOKE,
    };
    s.session.process_proposals(operation, proposals, expected_user_ids).map(
        |r| r.map(|cw| CommitWelcome { commit: cw.commit, welcome: cw.welcome }),
    )
}

/// `DaveSession::process_commit` of `davey`; `Ok(false)` is a commit it ignored.
/// The outcome depends on the group's state; the request and whether it
/// succeeded are recorded.
#[verifier::external_body]
fn session_process_commit(s: &mut MlsSession, commit: &[u8]) -> (r: Result<bool, ProcessCommitError>)
    ensures
        old(s).answered(&*final(s), DaveRequest::Commit { data: commit@, ok: r is Ok }),
{
    s.session.process_commit(commit)
}

/// `DaveSession::process_welcome` of `davey`, with no list of recognized users.
/// The outcome depends on the group's state; the request and whether it
/// succeeded are recorded.
#[verifier::external_body]
fn session_process_welcome(s: &mut MlsSession, welcome: &[u8]) -> (r: Result<(), ProcessWelcomeError>)
    ensures
        old(s).answered(&*final(s), DaveRequest::Welcome { data: welcome@, ok: r is Ok }),
{
    s.session.process_welcome(welcome, None)
}

/// `DaveSession::set_passthrough_mode` of `davey`: the setting is recorded.
#[verifier::external_body]
fn session_set_passthrough_mode(s: &mut MlsSession, enabled: bool, expiry_secs: Option<u32>)
    ensures
        final(s).passthroughs() == old(s).passthroughs().push((enabled, expiry_secs)),
        final(s).requests() == old(s).requests(),
{
    s.session.set_passthrough_mode(enabled, expiry_secs)
}

/// `DaveSession::encrypt_opus` of `davey`, the frame copied out. The encrypted
/// bytes rest on the session's keys and a fresh nonce; the frame and the result
/// are recorded. Encrypting leaves the session's ready flag as it was.
#[verifier::external_body]
fn session_encrypt_opus(s: &mut MlsSession, packet: &[u8]) -> (r: Result<Vec<u8>, EncryptError>)
    ensures
        old(s).answered(&*final(s), DaveRequest::EncryptOpus { frame: packet@, out: bytes_of(r) }),
        final(s).ready() == old(s).ready(),
{
    s.session.encrypt_opus(packet).map(|out| out.into_owned())
}

/// `DaveSession::encrypt` of `davey`, the frame copied out. The encrypted bytes
/// rest on the session's keys; the frame and the result are recorded. Encrypting
/// leaves the session's ready flag as it was.
#[verifier::external_body]
fn session_encrypt(s: &mut MlsSession, media_type: DaveMediaType, codec: DaveCodec, packet: &[u8]) -> (r:
    Result<Vec<u8>, EncryptError>)
    ensures
        old(s).answered(
            &*final(s),
            DaveRequest::Encrypt { media: media_type, codec, frame: packet@, out: bytes_of(r) },
        ),
        final(s).ready() == old(s).ready(),
{
    let media_type = match media_type {
        DaveMediaType::Audio => MediaType::AUDIO,
        DaveMediaType::Video => MediaType::VIDEO,
    };
    let codec = match codec {
        DaveCodec::Unknown => Codec::UNKNOWN,
        DaveCodec::Opus => Codec::OPUS,
        DaveCodec::Vp8 => Codec::VP8,
        DaveCodec::Vp9 => Codec::VP9,
        DaveCodec::H264 => Codec::H264,
        DaveCodec::H265 => Codec::H265,
        DaveCodec::Av1 => Codec::AV1,
    };
    s.session.encrypt(media_type, codec, packet).map(|out| out.into_owned())
}

/// `DaveSession::decrypt` of `davey`. The plaintext rests on the sender's keys;
/// the frame and the result are recorded. Decrypting leaves the session's ready
/// flag as it was.
#[verifier::external_body]
fn session_decrypt(s: &mut MlsSession, user_id: u64, media_type: DaveMediaType, packet: &[u8]) -> (r:
    Result<Vec<u8>, DecryptError>)
    ensures
        old(s).answered(
            &*final(s),
            DaveRequest::Decrypt { user: user_id, media: media_type, frame: packet@, out: bytes_of(r) },
        ),
        final(s).ready() == old(s).ready(),
{
    let media_type = match media_type {
        DaveMediaType::Audio => MediaType::AUDIO,
        DaveMediaType::Video => MediaType::VIDEO,
    };
    s.session.decrypt(user_id, media_type, packet)
}

/// `DaveSession::is_ready` of `davey`: the session's ready flag.
#[verifier::external_body]
fn session_is_ready(s: &MlsSession) -> (r: bool)
    ensures
        r == s.ready(),
{
    s.session.is_ready()
}

/// `DaveSession::status` of `davey`, as the library's enum: the session's status.
#[verifier::external_body]
fn session_status(s: &MlsSession) -> (r: DaveSessionStatus)
    ensures
        r == s.status(),
{
    match s.session.status() {
        SessionStatus::INACTIVE => DaveSessionStatus::Inactive,
        SessionStatus::PENDING => DaveSessionStatus::Pending,
        SessionStatus::AWAITING_RESPONSE => DaveSessionStatus::AwaitingResponse,
        SessionStatus::ACTIVE => DaveSessionStatus::Active,
    }
}

/// `DaveSession::voice_privacy_code` of `davey`: the group's privacy code, if any.
#[verifier::external_body]
fn session_voice_privacy_code(s: &MlsSession) -> (r: Option<&str>)
    ensures
        match r {
            Some(code) => s.privacy_code() == Some(code@),
            None => s.privacy_code() is None,
        },
{
    s.session.voice_privacy_code()
}

/// The operation that the proposals op type byte names: 1 revokes, anything else appends.
pub fn proposals_operation(op_type: u8) -> (r: ProposalsOperation)
    ensures
        r == (if op_type == 1 {
            ProposalsOperation::Revoke
        } else {
            ProposalsOperation::Append
        }),
{
    if op_type == 1 {
        ProposalsOperation::Revoke
    } else {
        ProposalsOperation::Append
    }
}

/// The users that proposals are checked against: none at all when nobody is known.
pub fn expected_users(connected_users: &[u64]) -> (r: Option<&[u64]>)
    ensures
        connected_users@.len() == 0 ==> r is None,
        connected_users@.len() > 0 ==> r is Some && r->Some_0@ == connected_users@,
{
    if connected_users.len() == 0 {
        None
    } else {
        Some(connected_users)
    }
}

/// The DAVE state of one voice connection: the MLS session once there is one,
/// the negotiated protocol version (0 is a call without end-to-end encryption),
/// and whom the session is for.
pub struct DaveHandler {
    inner: Option<MlsSession>,
    protocol_version: u16,
    user_id: u64,
    channel_id: u64,
}

/// What [`DaveHandler::init`] hands the session for a version other than 0: the
/// session is made again (or made, where there was none), then a key package is
/// asked for unless making it again failed.
pub open spec fn init_requests(before: DaveHandler, protocol_version: u16, r: Result<Option<Vec<u8>>, DaveError>) -> Seq<DaveRequest> {
    let reinit_failed = r is Err && r->Err_0 is Reinit;
    let start = if before.has_session() {
        DaveRequest::Reinit {
            version: protocol_version,
            user: before.user(),
            channel: before.channel(),
            ok: !reinit_failed,
        }
    } else {
        DaveRequest::Create { version: protocol_version, user: before.user(), channel: before.channel() }
    };
    let package = match r {
        Ok(Some(kp)) => Some(kp@),
        _ => None,
    };
    if reinit_failed {
        before.requests().push(start)
    } else {
        before.requests().push(start).push(DaveRequest::KeyPackage { package })
    }
}

impl DaveHandler {
    /// Whether an MLS session exists.
    pub closed spec fn has_session(&self) -> bool {
        self.inner is Some
    }

    /// The negotiated protocol version.
    pub closed spec fn version(&self) -> u16 {
        self.protocol_version
    }

    /// The user the session is for.
    pub closed spec fn user(&self) -> u64 {
        self.user_id
    }

    /// The channel the session is for.
    pub closed spec fn channel(&self) -> u64 {
        self.channel_id
    }

    /// Every passthrough setting (enabled, expiry in seconds) handed to the
    /// session, oldest first.
    pub closed spec fn passthrough_requests(&self) -> Seq<(bool, Option<u32>)> {
        match self.inner {
            Some(s) => s.passthroughs(),
            None => Seq::empty(),
        }
    }

    /// Every request handed to the session with its answer, oldest first.
    pub closed spec fn requests(&self) -> Seq<DaveRequest> {
        match self.inner {
            Some(s) => s.requests(),
            None => Seq::empty(),
        }
    }

    /// The session's own ready flag.
    pub closed spec fn session_ready(&self) -> bool {
        match self.inner {
            Some(s) => s.ready(),
            None => false,
        }
    }

    /// The session's status, if there is a session.
    pub closed spec fn session_status(&self) -> Option<DaveSessionStatus> {
        match self.inner {
            Some(s) => Some(s.status()),
            None => None,
        }
    }

    /// The group's voice privacy code, if there is a session and it has one.
    pub closed spec fn privacy_code(&self) -> Option<Seq<char>> {
        match self.inner {
            Some(s) => s.privacy_code(),
            None => None,
        }
    }

    /// Whether there is a session and it can encrypt and decrypt frames.
    pub open spec fn ready(&self) -> bool {
        self.has_session() && self.session_ready()
    }

    /// The requests with `request` added when there is a session to hand it to.
    pub open spec fn handed(&self, request: DaveRequest) -> Seq<DaveRequest> {
        if self.has_session() {
            self.requests().push(request)
        } else {
            self.requests()
        }
    }

    /// The session is unchanged in its existence, version, identity and
    /// passthrough settings.
    pub open spec fn same_state(&self, other: &Self) -> bool {
        &&& self.has_session() == other.has_session()
        &&& self.version() == other.version()
        &&& self.user() == other.user()
        &&& self.channel() == other.channel()
        &&& self.passthrough_requests() == other.passthrough_requests()
    }

    /// What [`Self::init`] does: the version becomes `protocol_version`; for
    /// version 0 an existing session is reset (which may fail) and then put in
    /// passthrough for 10 seconds, and no key package comes; for another version the
    /// session is made or made again and a key package comes, or the step that
    /// failed is named. What the session is handed is recorded.
    pub open spec fn init_outcome(
        before: Self,
        after: Self,
        protocol_version: u16,
        r: Result<Option<Vec<u8>>, DaveError>,
    ) -> bool {
        &&& after.version() == protocol_version
        &&& after.user() == before.user()
        &&& after.channel() == before.channel()
        &&& protocol_version == 0 ==> {
            &&& after.has_session() == before.has_session()
            &&& !before.has_session() ==> r is Ok
            &&& r is Ok ==> r->Ok_0 is None
            &&& r is Err ==> r->Err_0 is Reset
            &&& after.passthrough_requests() == if before.has_session() && r is Ok {
                before.passthrough_requests().push((true, Some(10u32)))
            } else {
                before.passthrough_requests()
            }
            &&& after.requests() == before.handed(DaveRequest::Reset { ok: r is Ok })
        }
        &&& protocol_version != 0 ==> {
            &&& r is Ok ==> r->Ok_0 is Some && after.has_session()
            &&& before.has_session() ==> after.has_session()
            &&& r is Err ==> {
                ||| r->Err_0 is Reinit && before.has_session()
                ||| r->Err_0 is Init && !before.has_session() && !after.has_session()
                ||| r->Err_0 is KeyPackage
            }
            &&& after.passthrough_requests() == before.passthrough_requests()
            &&& after.has_session() ==> after.requests() == init_requests(before, protocol_version, r)
        }
    }

    /// A handler for `user_id` in `channel_id`, with no session yet.
    pub fn new(user_id: u64, channel_id: u64) -> (r: Self)
        ensures
            !r.has_session(),
            r.version() == 0,
            r.user() == user_id,
            r.channel() == channel_id,
            r.passthrough_requests() == Seq::<(bool, Option<u32>)>::empty(),
            r.requests() == Seq::<DaveRequest>::empty(),
    {
        DaveHandler { inner: None, protocol_version: 0, user_id, channel_id }
    }

    /// Starts, or starts again, the session for `protocol_version` and returns the
    /// key package to send. Version 0 is a call without end-to-end encryption: an
    /// existing session is reset and put in passthrough for 10 seconds, and no key
    /// package is made.
    pub fn init(&mut self, protocol_version: u16) -> (r: Result<Option<Vec<u8>>, DaveError>)
        ensures
            Self::init_outcome(*old(self), *final(self), protocol_version, r),
    {
        self.protocol_version = protocol_version;
        if protocol_version == 0 {
            if let Some(s) = &mut self.inner {
                match session_reset(s) {
                    Ok(()) => {},
                    Err(e) => return Err(DaveError::Reset(e.to_string())),
                }
                session_set_passthrough_mode(s, true, Some(10));
            }
            return Ok(None);
        }
        if let Some(s) = &mut self.inner {
            match session_reinit(s, protocol_version, self.user_id, self.channel_id) {
                Ok(()) => {},
                Err(e) => return Err(DaveError::Reinit(e.to_string())),
            }
        } else {
            match session_new(protocol_version, self.user_id, self.channel_id) {
                Ok(session) => {
                    self.inner = Some(session);
                },
                Err(e) => return Err(DaveError::Init(e.to_string())),
            }
        }
        match &mut self.inner {
            Some(s) => match session_create_key_package(s) {
                Ok(kp) => Ok(Some(kp)),
                Err(e) => Err(DaveError::KeyPackage(e.to_string())),
            },
            None => {
                // The session was made or kept just above.
                proof {
                    assert(false);
                }
                Err(DaveError::InvalidProtocolVersion)
            },
        }
    }

    /// Hands the gateway's external sender package to the session; without a
    /// session there is nothing to do.
    pub fn set_external_sender(&mut self, data: &[u8]) -> (r: Result<(), DaveError>)
        ensures
            final(self).same_state(old(self)),
            !old(self).has_session() ==> r is Ok,
            r is Err ==> r->Err_0 is SetExternalSender,
            final(self).requests() == old(self).handed(DaveRequest::ExternalSender { data: data@, ok: r is Ok }),
    {
        if let Some(s) = &mut self.inner {
            match session_set_external_sender(s, data) {
                Ok(()) => {},
                Err(e) => return Err(DaveError::SetExternalSender(e.to_string())),
            }
        }
        Ok(())
    }

    /// Hands MLS proposals to the session; `op_type` 1 revokes and anything else
    /// appends (see [`proposals_operation`]), and the proposed members are checked
    /// against `connected_users` unless it is empty (see [`expected_users`]). Gives
    /// the session's answer: the commit to send back, if any. Without a session
    /// there is none.
    pub fn process_proposals(&mut self, op_type: u8, proposals: &[u8], connected_users: &[u64]) -> (r:
        Result<Option<CommitWelcome>, DaveError>)
        ensures
            final(self).same_state(old(self)),
            !old(self).has_session() ==> r is Ok && r->Ok_0 is None,
            r is Err ==> r->Err_0 is ProcessProposals,
            final(self).requests() == old(self).handed(
                DaveRequest::Proposals {
                    operation: if op_type == 1 {
                        ProposalsOperation::Revoke
                    } else {
                        ProposalsOperation::Append
                    },
                    proposals: proposals@,
                    users: if connected_users@.len() == 0 {
                        None
                    } else {
                        Some(connected_users@)
                    },
                    answer: answer_of(r),
                },
            ),
    {
        match &mut self.inner {
            Some(s) => {
                let operation = proposals_operation(op_type);
                let expected = expected_users(connected_users);
                match session_process_proposals(s, operation, proposals, expected) {
                    Ok(result) => Ok(result),
                    Err(e) => Err(DaveError::ProcessProposals(e.to_string())),
                }
            },
            None => Ok(None),
        }
    }

    /// Hands an announced MLS commit to the session; without a session there is
    /// nothing to do.
    pub fn process_commit(&mut self, data: &[u8]) -> (r: Result<(), DaveError>)
        ensures
            final(self).same_state(old(self)),
            !old(self).has_session() ==> r is Ok,
            r is Err ==> r->Err_0 is ProcessCommit,
            final(self).requests() == old(self).handed(DaveRequest::Commit { data: data@, ok: r is Ok }),
    {
        if let Some(s) = &mut self.inner {
            match session_process_commit(s, data) {
                Ok(_) => {},
                Err(e) => return Err(DaveError::ProcessCommit(e.to_string())),
            }
        }
        Ok(())
    }

    /// Hands an MLS welcome to the session; without a session there is nothing to
    /// do.
    pub fn process_welcome(&mut self, data: &[u8]) -> (r: Result<(), DaveError>)
        ensures
            final(self).same_state(old(self)),
            !old(self).has_session() ==> r is Ok,
            r is Err ==> r->Err_0 is ProcessWelcome,
            final(self).requests() == old(self).handed(DaveRequest::Welcome { data: data@, ok: r is Ok }),
    {
        if let Some(s) = &mut self.inner {
            match session_process_welcome(s, data) {
                Ok(()) => {},
                Err(e) => return Err(DaveError::ProcessWelcome(e.to_string())),
            }
        }
        Ok(())
    }

    /// Turns passthrough (unencrypted frames accepted) on or off, the change taking
    /// `expiry_secs` seconds; without a session there is nothing to do.
    pub fn set_passthrough_mode(&mut self, enabled: bool, expiry_secs: Option<u32>)
        ensures
            final(self).has_session() == old(self).has_session(),
            final(self).version() == old(self).version(),
            final(self).user() == old(self).user(),
            final(self).channel() == old(self).channel(),
            final(self).passthrough_requests() == if old(self).has_session() {
                old(self).passthrough_requests().push((enabled, expiry_secs))
            } else {
                old(self).passthrough_requests()
            },
            final(self).requests() == old(self).requests(),
    {
        if let Some(s) = &mut self.inner {
            session_set_passthrough_mode(s, enabled, expiry_secs);
        }
    }

    /// Encrypts an Opus frame end to end: when the session is ready the frame goes
    /// to it and its answer is given back; otherwise the frame comes back unchanged.
    pub fn encrypt_opus(&mut self, packet: &[u8]) -> (r: Result<Vec<u8>, DaveError>)
        ensures
            final(self).same_state(old(self)),
            final(self).ready() == old(self).ready(),
            final(self).requests() == if old(self).ready() {
                old(self).requests().push(DaveRequest::EncryptOpus { frame: packet@, out: bytes_of(r) })
            } else {
                old(self).requests()
            },
            !old(self).ready() ==> r is Ok && r->Ok_0@ == packet@,
            r is Err ==> r->Err_0 is Encrypt,
    {
        match &mut self.inner {
            Some(s) => {
                if session_is_ready(s) {
                    match session_encrypt_opus(s, packet) {
                        Ok(out) => Ok(out),
                        Err(e) => Err(DaveError::Encrypt(e.to_string())),
                    }
                } else {
                    Ok(vstd::slice::slice_to_vec(packet))
                }
            },
            None => Ok(vstd::slice::slice_to_vec(packet)),
        }
    }

    /// Encrypts a frame of the given media and codec end to end: when the session
    /// is ready the frame goes to it and its answer is given back; otherwise the
    /// frame comes back unchanged.
    pub fn encrypt(&mut self, media_type: DaveMediaType, codec: DaveCodec, packet: &[u8]) -> (r: Result<
        Vec<u8>,
        DaveError,
    >)
        ensures
            final(self).same_state(old(self)),
            final(self).ready() == old(self).ready(),
            final(self).requests() == if old(self).ready() {
                old(self).requests().push(
                    DaveRequest::Encrypt { media: media_type, codec, frame: packet@, out: bytes_of(r) },
                )
            } else {
                old(self).requests()
            },
            !old(self).ready() ==> r is Ok && r->Ok_0@ == packet@,
            r is Err ==> r->Err_0 is Encrypt,
    {
        match &mut self.inner {
            Some(s) => {
                if session_is_ready(s) {
                    match session_encrypt(s, media_type, codec, packet) {
                        Ok(out) => Ok(out),
                        Err(e) => Err(DaveError::Encrypt(e.to_string())),
                    }
                } else {
                    Ok(vstd::slice::slice_to_vec(packet))
                }
            },
            None => Ok(vstd::slice::slice_to_vec(packet)),
        }
    }

    /// Decrypts a frame from `user_id`: when the session is ready the frame goes to
    /// it and its answer is given back; otherwise the frame comes back unchanged.
    pub fn decrypt(&mut self, user_id: u64, media_type: DaveMediaType, packet: &[u8]) -> (r: Result<
        Vec<u8>,
        DaveError,
    >)
        ensures
            final(self).same_state(old(self)),
            final(self).ready() == old(self).ready(),
            final(self).requests() == if old(self).ready() {
                old(self).requests().push(
                    DaveRequest::Decrypt { user: user_id, media: media_type, frame: packet@, out: bytes_of(r) },
                )
            } else {
                old(self).requests()
            },
            !old(self).ready() ==> r is Ok && r->Ok_0@ == packet@,
            r is Err ==> r->Err_0 is Decrypt,
    {
        match &mut self.inner {
            Some(s) => {
                if session_is_ready(s) {
                    match session_decrypt(s, user_id, media_type, packet) {
                        Ok(out) => Ok(out),
                        Err(e) => Err(DaveError::Decrypt(e.to_string())),
                    }
                } else {
                    Ok(vstd::slice::slice_to_vec(packet))
                }
            },
            None => Ok(vstd::slice::slice_to_vec(packet)),
        }
    }

    /// Whether there is a session and it can encrypt and decrypt.
    pub fn is_ready(&self) -> (r: bool)
        ensures
            r == self.ready(),
    {
        match &self.inner {
            Some(s) => session_is_ready(s),
            None => false,
        }
    }

    /// The session's status, if there is a session.
    pub fn status(&self) -> (r: Option<DaveSessionStatus>)
        ensures
            r == self.session_status(),
            r is Some <==> self.has_session(),
    {
        match &self.inner {
            Some(s) => Some(session_status(s)),
            None => None,
        }
    }

    /// The voice privacy code of the group, once there is one.
    pub fn voice_privacy_code(&self) -> (r: Option<&str>)
        ensures
            match r {
                Some(code) => self.privacy_code() == Some(code@),
                None => self.privacy_code() is None,
            },
            !self.has_session() ==> r is None,
    {
        match &self.inner {
            Some(s) => session_voice_privacy_code(s),
            None => None,
        }
    }

    /// The negotiated protocol version.
    pub fn protocol_version(&self) -> (r: u16)
        ensures
            r == self.version(),
    {
        self.protocol_version
    }

    /// Whether the call runs without end-to-end encryption (version 0).
    pub fn is_passthrough(&self) -> (r: bool)
        ensures
            r == (self.version() == 0),
    {
        self.protocol_version == 0
    }
}

} // verus!

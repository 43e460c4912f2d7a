//! The voice gateway connection: its status, the parameters it hands out, and the
//! decisions it takes on each gateway message.
use vstd::prelude::*;
use vstd::string::*;
use std::collections::HashMap;
use crate::dave::{answer_of, CommitWelcome, DaveError, DaveHandler, DaveRequest, ProposalsOperation};
use crate::utils::{parse_u64, spec_parse_u64, str_eq};
use crate::voice::opcodes::{
    lemma_voice_opcode_binary_roundtrip, lemma_voice_opcode_roundtrip, VoiceOpCode, VoiceOpCodeBinary,
};
use crate::voice::stream_connection::StreamConnection;
use crate::voice::types::{
    frame_bytes, BinaryMessage, ClientDisconnect, ClientsConnect, DaveExecuteTransition,
    DavePrepareEpoch, DavePrepareTransition, Ready, SelectProtocolAck, StreamDesc,
};

verus! {

broadcast use vstd::std_specs::hash::group_hash_axioms;

/// Which of the voice connection's prerequisites are met.
#[derive(Debug, Default, Clone, Copy, PartialEq, Eq, Structural)]
pub struct ConnectionStatus {
    pub has_session: bool,
    pub has_token: bool,
    pub started: bool,
    pub resuming: bool,
}

/// The WebRTC and SSRC parameters of a READY message.
#[derive(Debug, Clone)]
pub struct WebRtcParams {
    pub address: String,
    pub port: u16,
    pub audio_ssrc: u32,
    pub video_ssrc: u32,
    pub rtx_ssrc: u32,
    pub supported_encryption_modes: Vec<String>,
}

/// What the voice connection reports to its owner.
#[derive(Debug)]
pub enum VoiceEvent {
    /// The WebRTC parameters are known.
    Ready(WebRtcParams),
    /// Discord acknowledged the protocol with an SDP answer.
    SelectProtocolAck { sdp: String, dave_version: u16 },
    /// The session was resumed.
    Resumed,
    /// An MLS commit (and welcome) was sent back to Discord.
    MlsCommitWelcome(Vec<u8>),
}

/// Why the voice connection could not go on.
#[derive(Debug)]
pub enum ConnectionError {
    /// The WebSocket failed; its message.
    WebSocket(String),
    /// A message did not decode; the decoder's message.
    Json(String),
    /// The DAVE session failed.
    Dave(DaveError),
    /// The connection closed unexpectedly.
    Closed,
    /// There is no voice server to connect to yet.
    NotConnected,
}

/// A JSON message for the voice gateway, each with its opcode (see [`GatewayCommand::op`]).
#[derive(Debug, Clone)]
pub enum GatewayCommand {
    /// IDENTIFY; a credential that has not arrived yet is sent as `null`.
    Identify {
        server_id: String,
        user_id: String,
        session_id: Option<String>,
        token: Option<String>,
        video: bool,
        streams: Vec<StreamDesc>,
    },
    /// RESUME.
    Resume { server_id: String, session_id: Option<String>, token: Option<String>, seq_ack: i64 },
    /// HEARTBEAT.
    Heartbeat { t: u64, seq_ack: i64 },
    /// DAVE_TRANSITION_READY.
    DaveTransitionReady { transition_id: u64 },
    /// MLS_INVALID_COMMIT_WELCOME.
    MlsInvalidCommitWelcome { transition_id: u64 },
}

impl GatewayCommand {
    /// The opcode the message is sent with.
    pub open spec fn spec_op(&self) -> VoiceOpCode {
        match self {
            GatewayCommand::Identify { .. } => VoiceOpCode::Identify,
            GatewayCommand::Resume { .. } => VoiceOpCode::Resume,
            GatewayCommand::Heartbeat { .. } => VoiceOpCode::Heartbeat,
            GatewayCommand::DaveTransitionReady { .. } => VoiceOpCode::DaveTransitionReady,
            GatewayCommand::MlsInvalidCommitWelcome { .. } => VoiceOpCode::MlsInvalidCommitWelcome,
        }
    }

    /// The opcode the message is sent with.
    pub fn op(&self) -> (r: VoiceOpCode)
        ensures
            r == self.spec_op(),
    {
        match self {
            GatewayCommand::Identify { .. } => VoiceOpCode::Identify,
            GatewayCommand::Resume { .. } => VoiceOpCode::Resume,
            GatewayCommand::Heartbeat { .. } => VoiceOpCode::Heartbeat,
            GatewayCommand::DaveTransitionReady { .. } => VoiceOpCode::DaveTransitionReady,
            GatewayCommand::MlsInvalidCommitWelcome { .. } => VoiceOpCode::MlsInvalidCommitWelcome,
        }
    }
}

/// What the connection asks its owner to do after a message.
#[derive(Debug)]
pub enum VoiceAction {
    /// Send a JSON message.
    Send(GatewayCommand),
    /// Send a binary frame, already encoded.
    SendBinary(Vec<u8>),
    /// Report an event.
    Emit(VoiceEvent),
}

/// The decoded payload of a JSON voice gateway message, in the type its opcode
/// calls for.
#[derive(Debug)]
pub enum MessageBody {
    Ready(Ready),
    SelectProtocolAck(SelectProtocolAck),
    ClientsConnect(ClientsConnect),
    ClientDisconnect(ClientDisconnect),
    DavePrepareTransition(DavePrepareTransition),
    DaveExecuteTransition(DaveExecuteTransition),
    DavePrepareEpoch(DavePrepareEpoch),
    /// The payload did not decode into the type its opcode calls for; the
    /// decoder's message.
    Undecodable(String),
    /// A payload the connection does not read.
    Other,
}

/// Whether executing a transition from `old_version` to `new_version` puts the
/// session in passthrough: a downgrade to version 0 always does, an upgrade from
/// version 0 does unless it is the initial transition 0.
pub open spec fn transition_needs_passthrough(transition_id: u64, old_version: u16, new_version: u16) -> bool {
    (old_version != 0 && new_version == 0) || (transition_id > 0 && old_version == 0 && new_version != 0)
}

/// `users` with `user` added unless it is there already.
pub open spec fn with_user(users: Seq<Seq<char>>, user: Seq<char>) -> Seq<Seq<char>> {
    if users.contains(user) {
        users
    } else {
        users.push(user)
    }
}

/// `users` with each of `added` added in turn.
pub open spec fn with_users(users: Seq<Seq<char>>, added: Seq<Seq<char>>) -> Seq<Seq<char>>
    decreases added.len(),
{
    if added.len() == 0 {
        users
    } else {
        with_user(with_users(users, added.drop_last()), added.last())
    }
}

/// Whether a user is not `user`.
pub open spec fn other_than(user: Seq<char>) -> spec_fn(Seq<char>) -> bool {
    |u: Seq<char>| u != user
}

/// `users` without `user`.
pub open spec fn without_user(users: Seq<Seq<char>>, user: Seq<char>) -> Seq<Seq<char>> {
    users.filter(other_than(user))
}

/// The user ids among `users` that read as numbers, in order.
pub open spec fn numeric_ids(users: Seq<Seq<char>>) -> Seq<u64>
    decreases users.len(),
{
    if users.len() == 0 {
        Seq::empty()
    } else {
        numeric_ids(users.drop_last()) + match spec_parse_u64(users.last()) {
            Some(id) => seq![id],
            None => Seq::empty(),
        }
    }
}

/// The key package frame: sequence number 0, opcode MLS_KEY_PACKAGE, the package.
pub open spec fn key_package_frame(kp: Seq<u8>) -> Seq<u8> {
    frame_bytes(0, 26, kp)
}

/// `actions` announce the key package that DAVE initialization gave, if any: one
/// key package frame, or nothing.
pub open spec fn announces_key_package(kp: Option<Vec<u8>>, actions: Seq<VoiceAction>) -> bool {
    match kp {
        Some(kp) => actions.len() == 1 && (actions[0] matches VoiceAction::SendBinary(b) && b@
            == key_package_frame(kp@)),
        None => actions.len() == 0,
    }
}

/// `after` is `before` with its DAVE state, users, prepared transitions, status and
/// sequence number replaced by the given ones.
pub open spec fn connection_becomes(
    before: VoiceConnection,
    after: VoiceConnection,
    dave: DaveHandler,
    users: Seq<Seq<char>>,
    pending: Map<u64, u16>,
    status: ConnectionStatus,
    seq: i64,
) -> bool {
    &&& after.same_identity(&before)
    &&& after.dave_of() == dave
    &&& after.users() == users
    &&& after.pending() == pending
    &&& after.status_of() == status
    &&& after.last_seq() == seq
}

/// The DAVE state after a passthrough request, which only a live session records.
pub open spec fn with_passthrough(dave: DaveHandler, after: DaveHandler, enabled: bool, expiry: Option<u32>) -> bool {
    &&& after.has_session() == dave.has_session()
    &&& after.version() == dave.version()
    &&& after.user() == dave.user()
    &&& after.channel() == dave.channel()
    &&& after.passthrough_requests() == if dave.has_session() {
        dave.passthrough_requests().push((enabled, expiry))
    } else {
        dave.passthrough_requests()
    }
}

/// Nothing changes but the sequence number, and nothing is answered.
pub open spec fn ignored(before: VoiceConnection, after: VoiceConnection, seq: i64, r: Result<Vec<VoiceAction>, ConnectionError>) -> bool {
    &&& connection_becomes(before, after, before.dave_of(), before.users(), before.pending(), before.status_of(), seq)
    &&& r is Ok && r->Ok_0@.len() == 0
}

/// A payload that did not decode fails the message.
pub open spec fn refused(before: VoiceConnection, after: VoiceConnection, seq: i64, e: String, r: Result<Vec<VoiceAction>, ConnectionError>) -> bool {
    &&& connection_becomes(before, after, before.dave_of(), before.users(), before.pending(), before.status_of(), seq)
    &&& r matches Err(ConnectionError::Json(m)) && m == e
}

/// READY reports the WebRTC parameters: the address, port and audio SSRC of the
/// message and the SSRCs of its first stream.
pub open spec fn ready_outcome(before: VoiceConnection, after: VoiceConnection, seq: i64, body: MessageBody, r: Result<Vec<VoiceAction>, ConnectionError>) -> bool {
    match body {
        MessageBody::Ready(ready) => {
            &&& connection_becomes(before, after, before.dave_of(), before.users(), before.pending(), before.status_of(), seq)
            &&& r is Ok && r->Ok_0@.len() == 1
            &&& r->Ok_0@[0] matches VoiceAction::Emit(VoiceEvent::Ready(p)) && p.address == ready.ip
                && p.port == ready.port && p.audio_ssrc == ready.ssrc && p.video_ssrc == ready.streams@[0].ssrc
                && p.rtx_ssrc == ready.streams@[0].rtx_ssrc && p.supported_encryption_modes == ready.modes
        },
        MessageBody::Undecodable(e) => refused(before, after, seq, e, r),
        _ => ignored(before, after, seq, r),
    }
}

/// DAVE initialization for `version` went as `ir` says, and the connection answers
/// with `answer` after the key package: the DAVE failure, or the key package
/// frame (if one came) followed by `answer`.
pub open spec fn initialized(
    before: VoiceConnection,
    after: VoiceConnection,
    seq: i64,
    version: u16,
    ir: Result<Option<Vec<u8>>, DaveError>,
    answer: Seq<VoiceAction>,
    r: Result<Vec<VoiceAction>, ConnectionError>,
) -> bool {
    &&& DaveHandler::init_outcome(before.dave_of(), after.dave_of(), version, ir)
    &&& connection_becomes(before, after, after.dave_of(), before.users(), before.pending(), before.status_of(), seq)
    &&& match ir {
        Err(e) => r matches Err(ConnectionError::Dave(e2)) && e2 == e,
        Ok(kp) => r is Ok && r->Ok_0@.len() >= answer.len() && announces_key_package(
            kp,
            r->Ok_0@.take(r->Ok_0@.len() - answer.len()),
        ) && r->Ok_0@.skip(r->Ok_0@.len() - answer.len()) == answer,
    }
}

/// The DAVE version a SELECT_PROTOCOL_ACK names, 0 if none.
pub open spec fn ack_version(ack: SelectProtocolAck) -> u16 {
    match ack.dave_protocol_version {
        Some(v) => v,
        None => 0u16,
    }
}

/// SELECT_PROTOCOL_ACK with an SDP answer initializes DAVE for the version it
/// names (0 if none), sends the key package if one came, and reports the answer.
pub open spec fn ack_outcome(before: VoiceConnection, after: VoiceConnection, seq: i64, body: MessageBody, r: Result<Vec<VoiceAction>, ConnectionError>) -> bool {
    match body {
        MessageBody::SelectProtocolAck(ack) => match ack.sdp {
            Some(sdp) => exists|ir: Result<Option<Vec<u8>>, DaveError>|
                #[trigger] DaveHandler::init_outcome(before.dave_of(), after.dave_of(), ack_version(ack), ir)
                && initialized(
                before,
                after,
                seq,
                ack_version(ack),
                ir,
                seq![VoiceAction::Emit(VoiceEvent::SelectProtocolAck { sdp, dave_version: ack_version(ack) })],
                r,
            ),
            None => ignored(before, after, seq, r),
        },
        MessageBody::Undecodable(e) => refused(before, after, seq, e, r),
        _ => ignored(before, after, seq, r),
    }
}

/// RESUMED marks the connection started and reports it.
pub open spec fn resumed_outcome(before: VoiceConnection, after: VoiceConnection, seq: i64, r: Result<Vec<VoiceAction>, ConnectionError>) -> bool {
    &&& connection_becomes(before, after, before.dave_of(), before.users(), before.pending(), ConnectionStatus { started: true, ..before.status_of() }, seq)
    &&& r is Ok && r->Ok_0@ == seq![VoiceAction::Emit(VoiceEvent::Resumed)]
}

/// CLIENTS_CONNECT adds the users.
pub open spec fn connect_outcome(before: VoiceConnection, after: VoiceConnection, seq: i64, body: MessageBody, r: Result<Vec<VoiceAction>, ConnectionError>) -> bool {
    match body {
        MessageBody::ClientsConnect(cc) => {
            &&& connection_becomes(before, after, before.dave_of(), with_users(before.users(), cc.user_ids@.map_values(|u: String| u@)), before.pending(), before.status_of(), seq)
            &&& r is Ok && r->Ok_0@.len() == 0
        },
        _ => ignored(before, after, seq, r),
    }
}

/// CLIENT_DISCONNECT removes the user.
pub open spec fn disconnect_outcome(before: VoiceConnection, after: VoiceConnection, seq: i64, body: MessageBody, r: Result<Vec<VoiceAction>, ConnectionError>) -> bool {
    match body {
        MessageBody::ClientDisconnect(cd) => {
            &&& connection_becomes(before, after, before.dave_of(), without_user(before.users(), cd.user_id@), before.pending(), before.status_of(), seq)
            &&& r is Ok && r->Ok_0@.len() == 0
        },
        _ => ignored(before, after, seq, r),
    }
}

/// Executing transition `id` on prepared transitions `pending` takes it out and,
/// where [`transition_needs_passthrough`] says so, puts the session in passthrough
/// for 10 seconds.
pub open spec fn executed(dave: DaveHandler, after: DaveHandler, pending: Map<u64, u16>, id: u64) -> bool {
    if pending.contains_key(id) && transition_needs_passthrough(id, dave.version(), pending[id]) {
        with_passthrough(dave, after, true, Some(10u32))
    } else {
        after == dave
    }
}

/// DAVE_PREPARE_TRANSITION prepares the transition; transition 0 is executed at
/// once, another is answered with DAVE_TRANSITION_READY after passthrough is turned
/// on for 120 seconds if it goes to version 0.
pub open spec fn prepare_transition_outcome(before: VoiceConnection, after: VoiceConnection, seq: i64, body: MessageBody, r: Result<Vec<VoiceAction>, ConnectionError>) -> bool {
    match body {
        MessageBody::DavePrepareTransition(d) => {
            let prepared = before.pending().insert(d.transition_id, d.protocol_version);
            if d.transition_id == 0 {
                &&& connection_becomes(before, after, after.dave_of(), before.users(), prepared.remove(0), before.status_of(), seq)
                &&& executed(before.dave_of(), after.dave_of(), prepared, 0)
                &&& r is Ok && r->Ok_0@.len() == 0
            } else {
                &&& connection_becomes(before, after, after.dave_of(), before.users(), prepared, before.status_of(), seq)
                &&& if d.protocol_version == 0 {
                    with_passthrough(before.dave_of(), after.dave_of(), true, Some(120u32))
                } else {
                    after.dave_of() == before.dave_of()
                }
                &&& r is Ok && r->Ok_0@ == seq![VoiceAction::Send(GatewayCommand::DaveTransitionReady { transition_id: d.transition_id })]
            }
        },
        _ => ignored(before, after, seq, r),
    }
}

/// DAVE_EXECUTE_TRANSITION executes a prepared transition.
pub open spec fn execute_transition_outcome(before: VoiceConnection, after: VoiceConnection, seq: i64, body: MessageBody, r: Result<Vec<VoiceAction>, ConnectionError>) -> bool {
    match body {
        MessageBody::DaveExecuteTransition(d) => {
            &&& connection_becomes(before, after, after.dave_of(), before.users(), before.pending().remove(d.transition_id), before.status_of(), seq)
            &&& executed(before.dave_of(), after.dave_of(), before.pending(), d.transition_id)
            &&& r is Ok && r->Ok_0@.len() == 0
        },
        _ => ignored(before, after, seq, r),
    }
}

/// DAVE_PREPARE_EPOCH for epoch 1 initializes DAVE again and sends the key package.
pub open spec fn prepare_epoch_outcome(before: VoiceConnection, after: VoiceConnection, seq: i64, body: MessageBody, r: Result<Vec<VoiceAction>, ConnectionError>) -> bool {
    match body {
        MessageBody::DavePrepareEpoch(d) => if d.epoch == 1 {
            exists|ir: Result<Option<Vec<u8>>, DaveError>|
                #[trigger] DaveHandler::init_outcome(before.dave_of(), after.dave_of(), d.protocol_version, ir)
                && initialized(before, after, seq, d.protocol_version, ir, Seq::empty(), r)
        } else {
            ignored(before, after, seq, r)
        },
        _ => ignored(before, after, seq, r),
    }
}

/// What a JSON message with opcode `op`, sequence number `seq` and payload `body`
/// does to the connection and what it answers: the sequence number is recorded,
/// then READY (2), SELECT_PROTOCOL_ACK (4), RESUMED (9), CLIENTS_CONNECT (11),
/// CLIENT_DISCONNECT (13), DAVE_PREPARE_TRANSITION (21), DAVE_EXECUTE_TRANSITION
/// (22) and DAVE_PREPARE_EPOCH (24) act as their own functions above say, and any
/// other message changes nothing more and answers nothing.
pub open spec fn message_outcome(
    before: VoiceConnection,
    after: VoiceConnection,
    op: u8,
    seq: Option<i64>,
    body: MessageBody,
    r: Result<Vec<VoiceAction>, ConnectionError>,
) -> bool {
    let seq = match seq {
        Some(s) => s,
        None => before.last_seq(),
    };
    if op == 2 {
        ready_outcome(before, after, seq, body, r)
    } else if op == 4 {
        ack_outcome(before, after, seq, body, r)
    } else if op == 9 {
        resumed_outcome(before, after, seq, r)
    } else if op == 11 {
        connect_outcome(before, after, seq, body, r)
    } else if op == 13 {
        disconnect_outcome(before, after, seq, body, r)
    } else if op == 21 {
        prepare_transition_outcome(before, after, seq, body, r)
    } else if op == 22 {
        execute_transition_outcome(before, after, seq, body, r)
    } else if op == 24 {
        prepare_epoch_outcome(before, after, seq, body, r)
    } else {
        ignored(before, after, seq, r)
    }
}

/// The key package that DAVE initialization gave, if it succeeded with one.
pub open spec fn made_key_package(ir: Result<Option<Vec<u8>>, DaveError>) -> Option<Vec<u8>> {
    match ir {
        Ok(kp) => kp,
        Err(_) => None,
    }
}

/// A commit or welcome that could not be processed: MLS_INVALID_COMMIT_WELCOME is
/// sent for the transition, and DAVE is initialized again at its version; the key
/// package follows if one came (a failure there is not reported).
pub open spec fn invalid_commit_handled(
    before: VoiceConnection,
    mid: DaveHandler,
    after: VoiceConnection,
    seq: i64,
    transition_id: u64,
    actions: Seq<VoiceAction>,
) -> bool {
    exists|ir: Result<Option<Vec<u8>>, DaveError>|
        #[trigger] DaveHandler::init_outcome(mid, after.dave_of(), mid.version(), ir)
        && connection_becomes(before, after, after.dave_of(), before.users(), before.pending(), before.status_of(), seq)
        && actions.len() >= 1
        && actions[0] == VoiceAction::Send(GatewayCommand::MlsInvalidCommitWelcome { transition_id })
        && announces_key_package(made_key_package(ir), actions.skip(1))
}

/// After DAVE processed a commit or welcome for `transition_id` (`ok` says whether
/// it could), with `mid` the DAVE state it left: on success a transition other
/// than 0 is prepared at the session's version and answered with
/// DAVE_TRANSITION_READY; on failure see [`invalid_commit_handled`].
pub open spec fn commit_handled(
    before: VoiceConnection,
    mid: DaveHandler,
    after: VoiceConnection,
    seq: i64,
    transition_id: u64,
    ok: bool,
    r: Result<Vec<VoiceAction>, ConnectionError>,
) -> bool {
    &&& r is Ok
    &&& if ok {
        if transition_id > 0 {
            &&& connection_becomes(before, after, mid, before.users(), before.pending().insert(transition_id, mid.version()), before.status_of(), seq)
            &&& r->Ok_0@ == seq![VoiceAction::Send(GatewayCommand::DaveTransitionReady { transition_id })]
        } else {
            &&& connection_becomes(before, after, mid, before.users(), before.pending(), before.status_of(), seq)
            &&& r->Ok_0@.len() == 0
        }
    } else {
        invalid_commit_handled(before, mid, after, seq, transition_id, r->Ok_0@)
    }
}

/// The bytes of MLS_COMMIT_WELCOME: the commit, then the welcome if there is one.
pub open spec fn commit_welcome_bytes(cw: CommitWelcome) -> Seq<u8> {
    cw.commit@ + match cw.welcome {
        Some(w) => w@,
        None => Seq::empty(),
    }
}

/// The answer to MLS proposals in a frame with sequence number `seq`, given what
/// DAVE made of them: the failure, nothing, or the commit (and welcome) sent back
/// in the same sequence number and reported.
pub open spec fn proposals_answered(seq: u16, pr: Result<Option<CommitWelcome>, DaveError>, r: Result<Vec<VoiceAction>, ConnectionError>) -> bool {
    match pr {
        Err(e) => r matches Err(ConnectionError::Dave(e2)) && e2 == e,
        Ok(None) => r is Ok && r->Ok_0@.len() == 0,
        Ok(Some(cw)) => {
            &&& r is Ok && r->Ok_0@.len() == 2
            &&& r->Ok_0@[0] matches VoiceAction::SendBinary(b) && b@ == frame_bytes(seq, 28, commit_welcome_bytes(cw))
            &&& r->Ok_0@[1] matches VoiceAction::Emit(VoiceEvent::MlsCommitWelcome(p)) && p@ == commit_welcome_bytes(cw)
        },
    }
}

/// What MLS_PROPOSALS with `payload` hands to DAVE, given its answer `pr`: the
/// operation its first byte names, the rest of the payload, and the numeric ids of
/// the users in the call (none at all when there are none).
pub open spec fn proposals_request(
    before: VoiceConnection,
    payload: Seq<u8>,
    pr: Result<Option<CommitWelcome>, DaveError>,
) -> DaveRequest {
    let ids = numeric_ids(before.users());
    DaveRequest::Proposals {
        operation: if payload[0] == 1 {
            ProposalsOperation::Revoke
        } else {
            ProposalsOperation::Append
        },
        proposals: payload.subrange(1, payload.len() as int),
        users: if ids.len() == 0 {
            None
        } else {
            Some(ids)
        },
        answer: answer_of(pr),
    }
}

/// What a binary frame does to the connection and what it answers. A frame
/// shorter than 3 bytes is ignored altogether; otherwise its sequence number is
/// recorded and, by opcode:
/// - MLS_EXTERNAL_SENDER (25) hands the payload to DAVE;
/// - in each case below, what DAVE is handed and what it answered is recorded in
///   its requests;
/// - MLS_PROPOSALS (27) with a payload hands its first byte (the operation) and the
///   rest to DAVE, with the numeric ids of the users in the call, and answers as
///   [`proposals_answered`] says;
/// - MLS_ANNOUNCE_COMMIT_TRANSITION (29) and MLS_WELCOME (30) with at least 2
///   bytes read a big-endian transition id, hand the rest to DAVE, and go on as
///   [`commit_handled`] says;
/// - anything else changes nothing more.
/// A failure of DAVE to take the external sender or the proposals fails the frame.
pub open spec fn binary_outcome(
    before: VoiceConnection,
    after: VoiceConnection,
    data: Seq<u8>,
    r: Result<Vec<VoiceAction>, ConnectionError>,
) -> bool {
    if data.len() < 3 {
        ignored(before, after, before.last_seq(), r)
    } else {
        let fseq = (data[0] as int * 256 + data[1] as int) as u16;
        let seq = fseq as i64;
        let op = data[2];
        let payload = data.subrange(3, data.len() as int);
        let dave = before.dave_of();
        if op == 25 {
            &&& connection_becomes(before, after, after.dave_of(), before.users(), before.pending(), before.status_of(), seq)
            &&& after.dave_of().same_state(&dave)
            &&& !dave.has_session() ==> r is Ok && r->Ok_0@.len() == 0
            &&& r is Ok ==> r->Ok_0@.len() == 0
            &&& after.dave_of().requests() == dave.handed(DaveRequest::ExternalSender { data: payload, ok: r is Ok })
            &&& r is Err ==> r matches Err(ConnectionError::Dave(DaveError::SetExternalSender(_)))
        } else if op == 27 && payload.len() > 0 {
            &&& connection_becomes(before, after, after.dave_of(), before.users(), before.pending(), before.status_of(), seq)
            &&& after.dave_of().same_state(&dave)
            &&& !dave.has_session() ==> r is Ok && r->Ok_0@.len() == 0
            &&& exists|pr: Result<Option<CommitWelcome>, DaveError>|
                #[trigger] proposals_answered(fseq, pr, r) && (pr is Err ==> pr->Err_0 is ProcessProposals)
                && after.dave_of().requests() == dave.handed(proposals_request(before, payload, pr))
        } else if (op == 29 || op == 30) && payload.len() >= 2 {
            let transition_id = (payload[0] as int * 256 + payload[1] as int) as u64;
            let body = payload.subrange(2, payload.len() as int);
            exists|mid: DaveHandler, ok: bool|
                #[trigger] commit_handled(before, mid, after, seq, transition_id, ok, r)
                && mid.same_state(&dave) && (!dave.has_session() ==> ok)
                && mid.requests() == dave.handed(
                    if op == 29 {
                        DaveRequest::Commit { data: body, ok }
                    } else {
                        DaveRequest::Welcome { data: body, ok }
                    },
                )
        } else {
            ignored(before, after, seq, r)
        }
    }
}

/// One voice gateway connection: the credentials it identifies with, what it has
/// learned from the gateway, and its DAVE session.
pub struct VoiceConnection {
    guild_id: Option<String>,
    channel_id: String,
    bot_id: String,
    session_id: Option<String>,
    token: Option<String>,
    server: Option<String>,
    status: ConnectionStatus,
    seq: i64,
    dave: DaveHandler,
    connected_users: Vec<String>,
    pending_transitions: HashMap<u64, u16>,
    /// The Go Live stream connection attached to this voice connection, if any.
    pub stream_connection: Option<Box<StreamConnection>>,
}

impl VoiceConnection {
    /// The guild, if the call is in one.
    pub closed spec fn guild(&self) -> Option<String> {
        self.guild_id
    }

    /// The channel.
    pub closed spec fn channel(&self) -> String {
        self.channel_id
    }

    /// The bot's user id.
    pub closed spec fn bot(&self) -> String {
        self.bot_id
    }

    /// The session id, once the main gateway gave it.
    pub closed spec fn session(&self) -> Option<String> {
        self.session_id
    }

    /// The voice token, once the main gateway gave it.
    pub closed spec fn token_of(&self) -> Option<String> {
        self.token
    }

    /// The voice server, once the main gateway gave it.
    pub closed spec fn server_of(&self) -> Option<String> {
        self.server
    }

    /// Which prerequisites are met.
    pub closed spec fn status_of(&self) -> ConnectionStatus {
        self.status
    }

    /// The last sequence number the gateway sent (-1 before any).
    pub closed spec fn last_seq(&self) -> i64 {
        self.seq
    }

    /// The DAVE state.
    pub closed spec fn dave_of(&self) -> DaveHandler {
        self.dave
    }

    /// The users known to be in the call, in the order they joined.
    pub closed spec fn users(&self) -> Seq<Seq<char>> {
        self.connected_users@.map_values(|u: String| u@)
    }

    /// The attached stream connection.
    pub closed spec fn stream_of(&self) -> Option<Box<StreamConnection>> {
        self.stream_connection
    }

    /// The prepared DAVE transitions, from transition id to protocol version.
    pub closed spec fn pending(&self) -> Map<u64, u16> {
        self.pending_transitions@
    }

    /// Everything but the DAVE state, the users and the pending transitions is as in `other`.
    pub open spec fn same_identity(&self, other: &Self) -> bool {
        &&& self.guild() == other.guild()
        &&& self.channel() == other.channel()
        &&& self.bot() == other.bot()
        &&& self.session() == other.session()
        &&& self.token_of() == other.token_of()
        &&& self.server_of() == other.server_of()
        &&& self.stream_of() == other.stream_of()
    }

    /// Everything but the attached stream connection is as in `other`.
    pub open spec fn same_identity_but_stream(&self, other: &Self) -> bool {
        &&& self.guild() == other.guild()
        &&& self.channel() == other.channel()
        &&& self.bot() == other.bot()
        &&& self.session() == other.session()
        &&& self.token_of() == other.token_of()
        &&& self.server_of() == other.server_of()
        &&& self.status_of() == other.status_of()
        &&& self.last_seq() == other.last_seq()
        &&& self.dave_of() == other.dave_of()
        &&& self.users() == other.users()
        &&& self.pending() == other.pending()
    }

    /// A connection for `bot_id` in `channel_id` (of `guild_id`, or a DM call
    /// without one); its DAVE session is for the bot and the channel read as
    /// numbers, 0 where they do not read.
    pub fn new(guild_id: Option<String>, channel_id: String, bot_id: String) -> (r: Self)
        ensures
            r.guild() == guild_id,
            r.channel() == channel_id,
            r.bot() == bot_id,
            r.session() is None,
            r.token_of() is None,
            r.server_of() is None,
            r.status_of() == (ConnectionStatus { has_session: false, has_token: false, started: false, resuming: false }),
            r.last_seq() == -1,
            !r.dave_of().has_session(),
            r.dave_of().version() == 0,
            r.dave_of().user() == match spec_parse_u64(bot_id@) {
                Some(v) => v,
                None => 0,
            },
            r.dave_of().channel() == match spec_parse_u64(channel_id@) {
                Some(v) => v,
                None => 0,
            },
            r.dave_of().passthrough_requests().len() == 0,
            r.users().len() == 0,
            r.pending().is_empty(),
            r.stream_of() is None,
    {
        let user_id: u64 = match parse_u64(bot_id.as_str()) {
            Some(v) => v,
            None => 0,
        };
        let ch_id: u64 = match parse_u64(channel_id.as_str()) {
            Some(v) => v,
            None => 0,
        };
        let r = VoiceConnection {
            guild_id,
            channel_id,
            bot_id,
            session_id: None,
            token: None,
            server: None,
            status: ConnectionStatus { has_session: false, has_token: false, started: false, resuming: false },
            seq: -1,
            dave: DaveHandler::new(user_id, ch_id),
            connected_users: Vec::new(),
            pending_transitions: HashMap::new(),
            stream_connection: None,
        };
        proof {
            assert(r.users() =~= Seq::<Seq<char>>::empty());
            assert(r.pending() =~= Map::<u64, u16>::empty());
        }
        r
    }

    /// The session id, once known.
    pub fn session_id(&self) -> (r: Option<&str>)
        ensures
            match self.session() {
                Some(s) => r is Some && r->Some_0@ == s@,
                None => r is None,
            },
    {
        match &self.session_id {
            Some(s) => Some(s.as_str()),
            None => None,
        }
    }

    /// Records the session id from the main gateway.
    pub fn set_session(&mut self, session_id: String)
        ensures
            final(self).session() == Some(session_id),
            final(self).status_of() == (ConnectionStatus { has_session: true, ..old(self).status_of() }),
            final(self).guild() == old(self).guild(),
            final(self).channel() == old(self).channel(),
            final(self).bot() == old(self).bot(),
            final(self).token_of() == old(self).token_of(),
            final(self).server_of() == old(self).server_of(),
            final(self).last_seq() == old(self).last_seq(),
            final(self).dave_of() == old(self).dave_of(),
            final(self).users() == old(self).users(),
            final(self).pending() == old(self).pending(),
            final(self).stream_of() == old(self).stream_of(),
    {
        self.session_id = Some(session_id);
        self.status.has_session = true;
    }

    /// Records the voice server and token from the main gateway.
    pub fn set_tokens(&mut self, server: String, token: String)
        ensures
            final(self).server_of() == Some(server),
            final(self).token_of() == Some(token),
            final(self).status_of() == (ConnectionStatus { has_token: true, ..old(self).status_of() }),
            final(self).guild() == old(self).guild(),
            final(self).channel() == old(self).channel(),
            final(self).bot() == old(self).bot(),
            final(self).session() == old(self).session(),
            final(self).last_seq() == old(self).last_seq(),
            final(self).dave_of() == old(self).dave_of(),
            final(self).users() == old(self).users(),
            final(self).pending() == old(self).pending(),
            final(self).stream_of() == old(self).stream_of(),
    {
        self.server = Some(server);
        self.token = Some(token);
        self.status.has_token = true;
    }

    /// The server id the connection identifies with: the guild, or the channel
    /// for a DM call.
    pub open spec fn spec_server_id(&self) -> Seq<char> {
        match self.guild() {
            Some(g) => g@,
            None => self.channel()@,
        }
    }

    /// The server id the connection identifies with: the guild, or the channel
    /// for a DM call.
    pub fn server_id(&self) -> (r: &str)
        ensures
            r@ == self.spec_server_id(),
    {
        match &self.guild_id {
            Some(g) => g.as_str(),
            None => self.channel_id.as_str(),
        }
    }

    /// The attached stream connection, to change it in place.
    pub fn stream_connection_mut(&mut self) -> (r: Option<&mut StreamConnection>)
        ensures
            r is Some <==> old(self).stream_of() is Some,
            r matches Some(sc) ==> *sc == *old(self).stream_of()->Some_0 && final(self).stream_of()
                == Some(Box::new(*final(sc))),
            r is None ==> final(self).stream_of() is None && *final(self) == *old(self),
            final(self).same_identity_but_stream(old(self)),
    {
        match &mut self.stream_connection {
            Some(b) => Some(&mut **b),
            None => None,
        }
    }

    /// The URL of the voice gateway on the voice server, if it is known.
    pub fn gateway_url(&self) -> (r: Result<String, ConnectionError>)
        ensures
            match self.server_of() {
                Some(server) => r is Ok && r->Ok_0@ == "wss://"@ + server@ + "/?v=8"@,
                None => r matches Err(ConnectionError::NotConnected),
            },
    {
        match &self.server {
            Some(server) => {
                let mut url = String::from_str("wss://");
                url.append(server.as_str());
                url.append("/?v=8");
                Ok(url)
            },
            None => Err(ConnectionError::NotConnected),
        }
    }

    /// Whether `r` is this connection's IDENTIFY message (see [`Self::build_identify`]).
    pub open spec fn is_identify(&self, r: GatewayCommand) -> bool {
        r matches GatewayCommand::Identify { server_id, user_id, session_id, token, video, streams }
            && server_id@ == self.spec_server_id() && user_id == self.bot() && session_id
            == self.session() && token == self.token_of() && video && streams@.len() == 1
            && streams@[0].kind@ == "screen"@ && streams@[0].rid@ == "100"@ && streams@[0].quality
            == 100
    }

    /// Whether `r` is this connection's RESUME message.
    pub open spec fn is_resume(&self, r: GatewayCommand) -> bool {
        r matches GatewayCommand::Resume { server_id, session_id, token, seq_ack } && server_id@
            == self.spec_server_id() && session_id == self.session() && token == self.token_of()
            && seq_ack == self.last_seq()
    }

    /// The IDENTIFY message: the server id, the bot, the credentials, video on,
    /// and the one screen stream (rid `100`, quality 100).
    fn build_identify(&self) -> (r: GatewayCommand)
        ensures
            self.is_identify(r),
    {
        let mut streams: Vec<StreamDesc> = Vec::new();
        streams.push(
            StreamDesc { kind: String::from_str("screen"), rid: String::from_str("100"), quality: 100 },
        );
        GatewayCommand::Identify {
            server_id: self.server_id().to_owned(),
            user_id: self.bot_id.clone(),
            session_id: self.session_id.clone(),
            token: self.token.clone(),
            video: true,
            streams,
        }
    }

    /// The RESUME message: the server id, the credentials and the last sequence number.
    fn build_resume(&self) -> (r: GatewayCommand)
        ensures
            self.is_resume(r),
    {
        GatewayCommand::Resume {
            server_id: self.server_id().to_owned(),
            session_id: self.session_id.clone(),
            token: self.token.clone(),
            seq_ack: self.seq,
        }
    }

    /// Marks the connection started once the WebSocket is open and gives the first
    /// message to send: RESUME when resuming, IDENTIFY otherwise.
    pub fn on_connected(&mut self, resuming: bool) -> (r: GatewayCommand)
        ensures
            final(self).status_of() == (ConnectionStatus { started: true, resuming, ..old(self).status_of() }),
            final(self).same_identity(old(self)),
            final(self).last_seq() == old(self).last_seq(),
            final(self).dave_of() == old(self).dave_of(),
            final(self).users() == old(self).users(),
            final(self).pending() == old(self).pending(),
            resuming ==> final(self).is_resume(r),
            !resuming ==> final(self).is_identify(r),
    {
        self.status.started = true;
        self.status.resuming = resuming;
        if resuming {
            self.build_resume()
        } else {
            self.build_identify()
        }
    }

    /// The HEARTBEAT message at `now_ms` milliseconds since the epoch.
    pub fn heartbeat(&self, now_ms: u64) -> (r: GatewayCommand)
        ensures
            r == (GatewayCommand::Heartbeat { t: now_ms, seq_ack: self.last_seq() }),
    {
        GatewayCommand::Heartbeat { t: now_ms, seq_ack: self.seq }
    }

    /// Adds a user to the call unless it is known already.
    fn add_user(&mut self, user: String)
        ensures
            final(self).users() == with_user(old(self).users(), user@),
            final(self).same_identity(old(self)),
            final(self).status_of() == old(self).status_of(),
            final(self).last_seq() == old(self).last_seq(),
            final(self).dave_of() == old(self).dave_of(),
            final(self).pending() == old(self).pending(),
    {
        let n = self.connected_users.len();
        let mut i: usize = 0;
        while i < n
            invariant
                n == self.connected_users.len(),
                i <= n,
                forall|j: int| 0 <= j < i ==> self.connected_users@[j]@ != user@,
            decreases n - i,
        {
            if str_eq(self.connected_users[i].as_str(), user.as_str()) {
                proof {
                    assert(self.users()[i as int] == user@);
                }
                return;
            }
            i = i + 1;
        }
        let ghost before = self.users();
        self.connected_users.push(user);
        proof {
            assert(!before.contains(user@)) by {
                if before.contains(user@) {
                    let j = choose|j: int| 0 <= j < before.len() && before[j] == user@;
                    assert(self.connected_users@[j]@ == user@);
                }
            }
            assert(self.users() =~= before.push(user@));
        }
    }

    /// Removes a user from the call.
    fn remove_user(&mut self, user: &str)
        ensures
            final(self).users() == without_user(old(self).users(), user@),
            final(self).same_identity(old(self)),
            final(self).status_of() == old(self).status_of(),
            final(self).last_seq() == old(self).last_seq(),
            final(self).dave_of() == old(self).dave_of(),
            final(self).pending() == old(self).pending(),
    {
        let ghost before = self.users();
        let mut kept: Vec<String> = Vec::new();
        let n = self.connected_users.len();
        let mut i: usize = 0;
        while i < n
            invariant
                n == self.connected_users.len(),
                i <= n,
                before == self.users(),
                kept@.map_values(|u: String| u@) == without_user(before.take(i as int), user@),
            decreases n - i,
        {
            proof {
                assert(before.take(i as int + 1).drop_last() =~= before.take(i as int));
            }
            if !str_eq(self.connected_users[i].as_str(), user) {
                kept.push(self.connected_users[i].clone());
            }
            proof {
                reveal(Seq::filter);
                assert(kept@.map_values(|u: String| u@) =~= without_user(before.take(i as int + 1), user@));
            }
            i = i + 1;
        }
        proof {
            assert(before.take(n as int) =~= before);
        }
        self.connected_users = kept;
    }

    /// The ids of the users in the call that read as numbers, in the order they joined.
    pub fn connected_user_ids(&self) -> (r: Vec<u64>)
        ensures
            r@ == numeric_ids(self.users()),
    {
        let mut ids: Vec<u64> = Vec::new();
        let n = self.connected_users.len();
        let mut i: usize = 0;
        while i < n
            invariant
                n == self.connected_users.len(),
                i <= n,
                ids@ == numeric_ids(self.users().take(i as int)),
            decreases n - i,
        {
            proof {
                assert(self.users().take(i as int + 1).drop_last() =~= self.users().take(i as int));
            }
            match parse_u64(self.connected_users[i].as_str()) {
                Some(id) => {
                    ids.push(id);
                },
                None => {},
            }
            proof {
                assert(ids@ =~= numeric_ids(self.users().take(i as int + 1)));
            }
            i = i + 1;
        }
        proof {
            assert(self.users().take(n as int) =~= self.users());
        }
        ids
    }

    /// Executes a prepared DAVE transition: it leaves the prepared ones, and the
    /// session goes into passthrough for 10 seconds where
    /// [`transition_needs_passthrough`] says so. An unknown id changes nothing.
    fn execute_pending_transition(&mut self, transition_id: u64)
        ensures
            final(self).pending() == old(self).pending().remove(transition_id),
            executed(old(self).dave_of(), final(self).dave_of(), old(self).pending(), transition_id),
            final(self).same_identity(old(self)),
            final(self).status_of() == old(self).status_of(),
            final(self).last_seq() == old(self).last_seq(),
            final(self).users() == old(self).users(),
    {
        match self.pending_transitions.remove(&transition_id) {
            Some(new_version) => {
                let old_version = self.dave.protocol_version();
                if old_version != 0 && new_version == 0 {
                    self.dave.set_passthrough_mode(true, Some(10));
                } else if transition_id > 0 && old_version == 0 && new_version != 0 {
                    self.dave.set_passthrough_mode(true, Some(10));
                }
            },
            None => {},
        }
    }

    /// The key package frame for what DAVE initialization gave, if anything.
    fn key_package_actions(kp: Option<Vec<u8>>) -> (r: Vec<VoiceAction>)
        ensures
            announces_key_package(kp, r@),
    {
        let mut actions: Vec<VoiceAction> = Vec::new();
        if let Some(kp) = kp {
            actions.push(
                VoiceAction::SendBinary(
                    BinaryMessage::encode(0, VoiceOpCodeBinary::MlsKeyPackage.as_u8(), &kp),
                ),
            );
        }
        actions
    }

    /// Initializes DAVE for `version` and answers with the key package, if one
    /// came, followed by `answer`.
    fn initialize_dave(&mut self, version: u16, answer: Vec<VoiceAction>) -> (r: Result<
        Vec<VoiceAction>,
        ConnectionError,
    >)
        ensures
            exists|ir: Result<Option<Vec<u8>>, DaveError>|
                #[trigger] DaveHandler::init_outcome(old(self).dave_of(), final(self).dave_of(), version, ir)
                && initialized(*old(self), *final(self), old(self).last_seq(), version, ir, answer@, r),
    {
        let ghost before = self.dave;
        let ghost ans = answer@;
        let ir = self.dave.init(version);
        let ghost irg = ir;
        let r = match ir {
            Ok(kp) => {
                let mut actions = Self::key_package_actions(kp);
                let ghost kp_actions = actions@;
                let mut answer = answer;
                actions.append(&mut answer);
                proof {
                    assert(actions@ =~= kp_actions + ans);
                    assert(actions@.take(actions@.len() - ans.len()) =~= kp_actions);
                    assert(actions@.skip(actions@.len() - ans.len()) =~= ans);
                }
                Ok(actions)
            },
            Err(e) => Err(ConnectionError::Dave(e)),
        };
        proof {
            assert(DaveHandler::init_outcome(before, self.dave, version, irg));
            assert(connection_becomes(*old(self), *self, self.dave_of(), old(self).users(), old(self).pending(), old(self).status_of(), old(self).last_seq()));
            assert(initialized(*old(self), *self, old(self).last_seq(), version, irg, ans, r));
        }
        r
    }

    /// READY; see [`ready_outcome`].
    fn on_ready(&mut self, body: MessageBody) -> (r: Result<Vec<VoiceAction>, ConnectionError>)
        requires
            body is Ready ==> body->Ready_0.streams@.len() > 0,
        ensures
            ready_outcome(*old(self), *final(self), old(self).last_seq(), body, r),
    {
        match body {
            MessageBody::Ready(ready) => {
                let video_ssrc = ready.streams[0].ssrc;
                let rtx_ssrc = ready.streams[0].rtx_ssrc;
                let params = WebRtcParams {
                    address: ready.ip,
                    port: ready.port,
                    audio_ssrc: ready.ssrc,
                    video_ssrc,
                    rtx_ssrc,
                    supported_encryption_modes: ready.modes,
                };
                let mut actions: Vec<VoiceAction> = Vec::new();
                actions.push(VoiceAction::Emit(VoiceEvent::Ready(params)));
                Ok(actions)
            },
            MessageBody::Undecodable(e) => Err(ConnectionError::Json(e)),
            _ => Ok(Vec::new()),
        }
    }

    /// SELECT_PROTOCOL_ACK; see [`ack_outcome`].
    fn on_select_protocol_ack(&mut self, body: MessageBody) -> (r: Result<Vec<VoiceAction>, ConnectionError>)
        ensures
            ack_outcome(*old(self), *final(self), old(self).last_seq(), body, r),
    {
        match body {
            MessageBody::SelectProtocolAck(ack) => match ack.sdp {
                Some(sdp) => {
                    let dave_version: u16 = match ack.dave_protocol_version {
                        Some(v) => v,
                        None => 0,
                    };
                    let ghost event = VoiceAction::Emit(VoiceEvent::SelectProtocolAck { sdp, dave_version });
                    let mut answer: Vec<VoiceAction> = Vec::new();
                    answer.push(VoiceAction::Emit(VoiceEvent::SelectProtocolAck { sdp, dave_version }));
                    proof {
                        assert(answer@ =~= seq![event]);
                    }
                    let r = self.initialize_dave(dave_version, answer);
                    proof {
                        let ir = choose|ir: Result<Option<Vec<u8>>, DaveError>|
                            #[trigger] DaveHandler::init_outcome(old(self).dave_of(), self.dave_of(), dave_version, ir)
                            && initialized(*old(self), *self, old(self).last_seq(), dave_version, ir, seq![event], r);
                        assert(DaveHandler::init_outcome(old(self).dave_of(), self.dave_of(), dave_version, ir));
                    }
                    r
                },
                None => Ok(Vec::new()),
            },
            MessageBody::Undecodable(e) => Err(ConnectionError::Json(e)),
            _ => Ok(Vec::new()),
        }
    }

    /// CLIENTS_CONNECT; see [`connect_outcome`].
    fn on_clients_connect(&mut self, body: MessageBody) -> (r: Result<Vec<VoiceAction>, ConnectionError>)
        ensures
            connect_outcome(*old(self), *final(self), old(self).last_seq(), body, r),
    {
        match body {
            MessageBody::ClientsConnect(cc) => {
                let ghost ids = cc.user_ids@.map_values(|u: String| u@);
                let n = cc.user_ids.len();
                let mut i: usize = 0;
                while i < n
                    invariant
                        n == cc.user_ids@.len(),
                        ids == cc.user_ids@.map_values(|u: String| u@),
                        i <= n,
                        self.users() == with_users(old(self).users(), ids.take(i as int)),
                        self.same_identity(old(self)),
                        self.status_of() == old(self).status_of(),
                        self.dave_of() == old(self).dave_of(),
                        self.pending() == old(self).pending(),
                        self.last_seq() == old(self).last_seq(),
                    decreases n - i,
                {
                    proof {
                        assert(ids.take(i as int + 1).drop_last() =~= ids.take(i as int));
                    }
                    self.add_user(cc.user_ids[i].clone());
                    i = i + 1;
                }
                proof {
                    assert(ids.take(n as int) =~= ids);
                }
                Ok(Vec::new())
            },
            _ => Ok(Vec::new()),
        }
    }

    /// CLIENT_DISCONNECT; see [`disconnect_outcome`].
    fn on_client_disconnect(&mut self, body: MessageBody) -> (r: Result<Vec<VoiceAction>, ConnectionError>)
        ensures
            disconnect_outcome(*old(self), *final(self), old(self).last_seq(), body, r),
    {
        match body {
            MessageBody::ClientDisconnect(cd) => {
                self.remove_user(cd.user_id.as_str());
                Ok(Vec::new())
            },
            _ => Ok(Vec::new()),
        }
    }

    /// DAVE_PREPARE_TRANSITION; see [`prepare_transition_outcome`].
    fn on_prepare_transition(&mut self, body: MessageBody) -> (r: Result<Vec<VoiceAction>, ConnectionError>)
        ensures
            prepare_transition_outcome(*old(self), *final(self), old(self).last_seq(), body, r),
    {
        match body {
            MessageBody::DavePrepareTransition(d) => {
                self.pending_transitions.insert(d.transition_id, d.protocol_version);
                let mut actions: Vec<VoiceAction> = Vec::new();
                if d.transition_id == 0 {
                    self.execute_pending_transition(0);
                } else {
                    if d.protocol_version == 0 {
                        self.dave.set_passthrough_mode(true, Some(120));
                    }
                    actions.push(
                        VoiceAction::Send(GatewayCommand::DaveTransitionReady { transition_id: d.transition_id }),
                    );
                }
                Ok(actions)
            },
            _ => Ok(Vec::new()),
        }
    }

    /// DAVE_EXECUTE_TRANSITION; see [`execute_transition_outcome`].
    fn on_execute_transition(&mut self, body: MessageBody) -> (r: Result<Vec<VoiceAction>, ConnectionError>)
        ensures
            execute_transition_outcome(*old(self), *final(self), old(self).last_seq(), body, r),
    {
        match body {
            MessageBody::DaveExecuteTransition(d) => {
                self.execute_pending_transition(d.transition_id);
                Ok(Vec::new())
            },
            _ => Ok(Vec::new()),
        }
    }

    /// DAVE_PREPARE_EPOCH; see [`prepare_epoch_outcome`].
    fn on_prepare_epoch(&mut self, body: MessageBody) -> (r: Result<Vec<VoiceAction>, ConnectionError>)
        ensures
            prepare_epoch_outcome(*old(self), *final(self), old(self).last_seq(), body, r),
    {
        match body {
            MessageBody::DavePrepareEpoch(d) => {
                if d.epoch == 1 {
                    self.initialize_dave(d.protocol_version, Vec::new())
                } else {
                    Ok(Vec::new())
                }
            },
            _ => Ok(Vec::new()),
        }
    }

    /// Handles a JSON message from the voice gateway, already decoded into the
    /// payload type its opcode calls for; see [`message_outcome`]. A READY message
    /// must name at least one stream.
    #[verifier::rlimit(40)]
    pub fn handle_message(&mut self, op: u8, seq: Option<i64>, body: MessageBody) -> (r: Result<
        Vec<VoiceAction>,
        ConnectionError,
    >)
        requires
            op == 2 && body is Ready ==> body->Ready_0.streams@.len() > 0,
        ensures
            message_outcome(*old(self), *final(self), op, seq, body, r),
    {
        if let Some(s) = seq {
            self.seq = s;
        }
        let code = VoiceOpCode::from_u8(op);
        proof {
            if let Some(c) = code {
                lemma_voice_opcode_roundtrip(c);
            }
            assert(VoiceOpCode::Ready.value() == 2);
            assert(VoiceOpCode::SelectProtocolAck.value() == 4);
            assert(VoiceOpCode::Resumed.value() == 9);
            assert(VoiceOpCode::ClientsConnect.value() == 11);
            assert(VoiceOpCode::ClientDisconnect.value() == 13);
            assert(VoiceOpCode::DavePrepareTransition.value() == 21);
            assert(VoiceOpCode::DaveExecuteTransition.value() == 22);
            assert(VoiceOpCode::DavePrepareEpoch.value() == 24);
        }
        let ghost b = body;
        let r = match code {
            Some(VoiceOpCode::Ready) => self.on_ready(body),
            Some(VoiceOpCode::SelectProtocolAck) => {
                let ghost mid = *self;
                let r = self.on_select_protocol_ack(body);
                proof {
                    if let MessageBody::SelectProtocolAck(ack) = b {
                        if let Some(sdp) = ack.sdp {
                            let v = ack_version(ack);
                            let ans = seq![VoiceAction::Emit(VoiceEvent::SelectProtocolAck { sdp, dave_version: v })];
                            let ir = choose|ir: Result<Option<Vec<u8>>, DaveError>|
                                #[trigger] DaveHandler::init_outcome(mid.dave_of(), self.dave_of(), v, ir)
                                && initialized(mid, *self, mid.last_seq(), v, ir, ans, r);
                            assert(initialized(*old(self), *self, mid.last_seq(), v, ir, ans, r));
                            assert(DaveHandler::init_outcome(old(self).dave_of(), self.dave_of(), v, ir));
                        }
                    }
                }
                r
            },
            Some(VoiceOpCode::Resumed) => {
                self.status.started = true;
                let mut actions: Vec<VoiceAction> = Vec::new();
                actions.push(VoiceAction::Emit(VoiceEvent::Resumed));
                Ok(actions)
            },
            Some(VoiceOpCode::ClientsConnect) => self.on_clients_connect(body),
            Some(VoiceOpCode::ClientDisconnect) => self.on_client_disconnect(body),
            Some(VoiceOpCode::DavePrepareTransition) => self.on_prepare_transition(body),
            Some(VoiceOpCode::DaveExecuteTransition) => self.on_execute_transition(body),
            Some(VoiceOpCode::DavePrepareEpoch) => {
                let ghost mid = *self;
                let r = self.on_prepare_epoch(body);
                proof {
                    if let MessageBody::DavePrepareEpoch(d) = b {
                        if d.epoch == 1 {
                            let ir = choose|ir: Result<Option<Vec<u8>>, DaveError>|
                                #[trigger] DaveHandler::init_outcome(mid.dave_of(), self.dave_of(), d.protocol_version, ir)
                                && initialized(mid, *self, mid.last_seq(), d.protocol_version, ir, Seq::empty(), r);
                            assert(initialized(*old(self), *self, mid.last_seq(), d.protocol_version, ir, Seq::empty(), r));
                            assert(DaveHandler::init_outcome(old(self).dave_of(), self.dave_of(), d.protocol_version, ir));
                        }
                    }
                }
                r
            },
            _ => Ok(Vec::new()),
        };
        r
    }

    /// Answers a commit or welcome that DAVE could not process; see
    /// [`invalid_commit_handled`].
    fn process_invalid_commit(&mut self, transition_id: u64) -> (r: Vec<VoiceAction>)
        ensures
            invalid_commit_handled(*old(self), old(self).dave_of(), *final(self), old(self).last_seq(), transition_id, r@),
    {
        let mut actions: Vec<VoiceAction> = Vec::new();
        actions.push(
            VoiceAction::Send(GatewayCommand::MlsInvalidCommitWelcome { transition_id }),
        );
        let version = self.dave.protocol_version();
        let ghost before = self.dave;
        let ir = self.dave.init(version);
        let ghost irg = ir;
        let kp: Option<Vec<u8>> = match ir {
            Ok(kp) => kp,
            Err(_) => None,
        };
        let mut tail = Self::key_package_actions(kp);
        let ghost first = actions@;
        let ghost tail_view = tail@;
        actions.append(&mut tail);
        proof {
            assert(actions@.skip(1) =~= tail_view);
            assert(DaveHandler::init_outcome(before, self.dave_of(), version, irg));
        }
        actions
    }

    /// Goes on after DAVE processed a commit or welcome; see [`commit_handled`].
    fn finish_commit(&mut self, transition_id: u64, ok: bool) -> (r: Result<Vec<VoiceAction>, ConnectionError>)
        ensures
            commit_handled(*old(self), old(self).dave_of(), *final(self), old(self).last_seq(), transition_id, ok, r),
    {
        if ok {
            let mut actions: Vec<VoiceAction> = Vec::new();
            if transition_id > 0 {
                let version = self.dave.protocol_version();
                self.pending_transitions.insert(transition_id, version);
                actions.push(VoiceAction::Send(GatewayCommand::DaveTransitionReady { transition_id }));
            }
            Ok(actions)
        } else {
            Ok(self.process_invalid_commit(transition_id))
        }
    }

    /// The bytes of MLS_COMMIT_WELCOME.
    fn commit_welcome_payload(cw: CommitWelcome) -> (r: Vec<u8>)
        ensures
            r@ == commit_welcome_bytes(cw),
    {
        let ghost cwg = cw;
        let mut payload = cw.commit;
        if let Some(w) = cw.welcome {
            payload.extend_from_slice(w.as_slice());
        }
        proof {
            assert(payload@ =~= commit_welcome_bytes(cwg));
        }
        payload
    }

    /// Handles a binary frame from the voice gateway; see [`binary_outcome`].
    pub fn handle_binary(&mut self, data: &[u8]) -> (r: Result<Vec<VoiceAction>, ConnectionError>)
        ensures
            binary_outcome(*old(self), *final(self), data@, r),
    {
        let frame = match BinaryMessage::parse(data) {
            Some(f) => f,
            None => return Ok(Vec::new()),
        };
        self.seq = frame.seq as i64;
        let code = VoiceOpCodeBinary::from_u8(frame.op);
        proof {
            if let Some(c) = code {
                lemma_voice_opcode_binary_roundtrip(c);
            }
            assert(VoiceOpCodeBinary::MlsExternalSender.value() == 25);
            assert(VoiceOpCodeBinary::MlsProposals.value() == 27);
            assert(VoiceOpCodeBinary::MlsAnnounceCommitTransition.value() == 29);
            assert(VoiceOpCodeBinary::MlsWelcome.value() == 30);
        }
        let ghost mid_conn = *self;
        match code {
            Some(VoiceOpCodeBinary::MlsExternalSender) => {
                let r = match self.dave.set_external_sender(frame.payload.as_slice()) {
                    Ok(()) => Ok(Vec::new()),
                    Err(e) => Err(ConnectionError::Dave(e)),
                };
                proof {
                    assert(binary_outcome(*old(self), *self, data@, r));
                }
                r
            },
            Some(VoiceOpCodeBinary::MlsProposals) => {
                if frame.payload.len() == 0 {
                    return Ok(Vec::new());
                }
                let op_type = frame.payload[0];
                let proposals = vstd::slice::slice_subrange(frame.payload.as_slice(), 1, frame.payload.len());
                let user_ids = self.connected_user_ids();
                let pr = self.dave.process_proposals(op_type, proposals, user_ids.as_slice());
                let ghost prg = pr;
                let r = match pr {
                    Ok(Some(cw)) => {
                        let payload = Self::commit_welcome_payload(cw);
                        let mut actions: Vec<VoiceAction> = Vec::new();
                        actions.push(
                            VoiceAction::SendBinary(
                                BinaryMessage::encode(frame.seq, VoiceOpCodeBinary::MlsCommitWelcome.as_u8(), payload.as_slice()),
                            ),
                        );
                        actions.push(VoiceAction::Emit(VoiceEvent::MlsCommitWelcome(payload)));
                        Ok(actions)
                    },
                    Ok(None) => Ok(Vec::new()),
                    Err(e) => Err(ConnectionError::Dave(e)),
                };
                proof {
                    assert(frame.seq == ((data@[0] as int * 256 + data@[1] as int) as u16));
                    assert(proposals_answered(((data@[0] as int * 256 + data@[1] as int) as u16), prg, r));
                    assert(prg is Err ==> prg->Err_0 is ProcessProposals);
                    assert(binary_outcome(*old(self), *self, data@, r));
                }
                r
            },
            Some(VoiceOpCodeBinary::MlsAnnounceCommitTransition) => {
                if frame.payload.len() < 2 {
                    return Ok(Vec::new());
                }
                let transition_id: u64 = frame.payload[0] as u64 * 256 + frame.payload[1] as u64;
                let commit = vstd::slice::slice_subrange(frame.payload.as_slice(), 2, frame.payload.len());
                let ok = match self.dave.process_commit(commit) {
                    Ok(()) => true,
                    Err(_) => false,
                };
                let ghost mid = self.dave;
                let r = self.finish_commit(transition_id, ok);
                proof {
                    assert(commit@ =~= data@.subrange(5, data@.len() as int));
                    lemma_commit_frame_outcome(*old(self), mid_conn, mid, *self, data@, transition_id, ok, r);
                }
                r
            },
            Some(VoiceOpCodeBinary::MlsWelcome) => {
                if frame.payload.len() < 2 {
                    return Ok(Vec::new());
                }
                let transition_id: u64 = frame.payload[0] as u64 * 256 + frame.payload[1] as u64;
                let welcome = vstd::slice::slice_subrange(frame.payload.as_slice(), 2, frame.payload.len());
                let ok = match self.dave.process_welcome(welcome) {
                    Ok(()) => true,
                    Err(_) => false,
                };
                let ghost mid = self.dave;
                let r = self.finish_commit(transition_id, ok);
                proof {
                    assert(welcome@ =~= data@.subrange(5, data@.len() as int));
                    lemma_commit_frame_outcome(*old(self), mid_conn, mid, *self, data@, transition_id, ok, r);
                }
                r
            },
            _ => Ok(Vec::new()),
        }
    }

    /// Whether both credentials have arrived and the connection has not started.
    pub fn can_start(&self) -> (r: bool)
        ensures
            r == (self.status_of().has_session && self.status_of().has_token && !self.status_of().started),
    {
        self.status.has_session && self.status.has_token && !self.status.started
    }
}

/// A commit or welcome frame went as [`binary_outcome`] says, once its transition
/// was handled from the connection with the frame's sequence number recorded.
proof fn lemma_commit_frame_outcome(
    before: VoiceConnection,
    mid_conn: VoiceConnection,
    mid: DaveHandler,
    after: VoiceConnection,
    data: Seq<u8>,
    transition_id: u64,
    ok: bool,
    r: Result<Vec<VoiceAction>, ConnectionError>,
)
    requires
        data.len() >= 5,
        data[2] == 29 || data[2] == 30,
        mid_conn == (VoiceConnection { seq: mid_conn.seq, ..before }),
        mid_conn.last_seq() == ((data[0] as int * 256 + data[1] as int) as u16) as i64,
        transition_id == (data[3] as int * 256 + data[4] as int) as u64,
        commit_handled(mid_conn, mid, after, mid_conn.last_seq(), transition_id, ok, r),
        mid.same_state(&before.dave_of()),
        !before.dave_of().has_session() ==> ok,
        mid.requests() == before.dave_of().handed(
            if data[2] == 29 {
                DaveRequest::Commit { data: data.subrange(5, data.len() as int), ok }
            } else {
                DaveRequest::Welcome { data: data.subrange(5, data.len() as int), ok }
            },
        ),
    ensures
        binary_outcome(before, after, data, r),
{
    assert(commit_handled(before, mid, after, mid_conn.last_seq(), transition_id, ok, r));
    let payload = data.subrange(3, data.len() as int);
    assert(payload[0] == data[3] && payload[1] == data[4]);
    assert(payload.subrange(2, payload.len() as int) =~= data.subrange(5, data.len() as int));
}

/// Adding a user keeps a list without duplicates free of them, and the user is in it.
proof fn lemma_with_user(users: Seq<Seq<char>>, user: Seq<char>)
    requires
        users.no_duplicates(),
    ensures
        with_user(users, user).no_duplicates(),
        with_user(users, user).contains(user),
        forall|u: Seq<char>| users.contains(u) ==> with_user(users, user).contains(u),
{
    if !users.contains(user) {
        let r = users.push(user);
        assert(r[r.len() - 1] == user);
        assert forall|i: int, j: int| 0 <= i < j < r.len() implies r[i] != r[j] by {
            if j == r.len() - 1 {
                assert(users[i] == r[i]);
            }
        }
        assert forall|u: Seq<char>| users.contains(u) implies r.contains(u) by {
            let k = choose|k: int| 0 <= k < users.len() && users[k] == u;
            assert(r[k] == u);
        }
    }
}

proof fn lemma_with_users(users: Seq<Seq<char>>, added: Seq<Seq<char>>)
    requires
        users.no_duplicates(),
    ensures
        with_users(users, added).no_duplicates(),
        forall|i: int| 0 <= i < added.len() ==> with_users(users, added).contains(#[trigger] added[i]),
    decreases added.len(),
{
    if added.len() > 0 {
        lemma_with_users(users, added.drop_last());
        lemma_with_user(with_users(users, added.drop_last()), added.last());
        assert forall|i: int| 0 <= i < added.len() implies with_users(users, added).contains(#[trigger] added[i]) by {
            if i < added.len() - 1 {
                assert(added.drop_last()[i] == added[i]);
            }
        }
    }
}

proof fn lemma_without_user(users: Seq<Seq<char>>, user: Seq<char>)
    requires
        users.no_duplicates(),
    ensures
        without_user(users, user).no_duplicates(),
        !without_user(users, user).contains(user),
    decreases users.len(),
{
    reveal(Seq::filter);
    if users.len() > 0 {
        lemma_without_user(users.drop_last(), user);
        let rest = without_user(users.drop_last(), user);
        if users.last() != user {
            assert(!rest.contains(users.last())) by {
                if rest.contains(users.last()) {
                    users.drop_last().lemma_filter_contains_rev(other_than(user), users.last());
                    let m = choose|m: int| 0 <= m < users.drop_last().len() && users.drop_last()[m] == users.last();
                    assert(users[m] == users[users.len() - 1]);
                }
            }
            let r = rest.push(users.last());
            assert forall|i: int, j: int| 0 <= i < j < r.len() implies r[i] != r[j] by {
                if j == r.len() - 1 {
                    assert(rest.contains(r[i]));
                }
            }
            assert(!r.contains(user)) by {
                if r.contains(user) {
                    let k = choose|k: int| 0 <= k < r.len() && r[k] == user;
                    if k < rest.len() {
                        assert(rest.contains(user));
                    }
                }
            }
        }
    }
}

/// The users of a connection never repeat: every message keeps them free of
/// duplicates, CLIENTS_CONNECT puts each of its users in, and CLIENT_DISCONNECT
/// takes its user out.
pub proof fn lemma_users_form_a_set(
    before: VoiceConnection,
    after: VoiceConnection,
    op: u8,
    seq: Option<i64>,
    body: MessageBody,
    r: Result<Vec<VoiceAction>, ConnectionError>,
)
    requires
        before.users().no_duplicates(),
        message_outcome(before, after, op, seq, body, r),
    ensures
        after.users().no_duplicates(),
        op == 11 && body is ClientsConnect ==> forall|i: int|
            0 <= i < body->ClientsConnect_0.user_ids@.len() ==> after.users().contains(
                #[trigger] body->ClientsConnect_0.user_ids@[i]@,
            ),
        op == 13 && body is ClientDisconnect ==> !after.users().contains(body->ClientDisconnect_0.user_id@),
{
    match body {
        MessageBody::ClientsConnect(cc) => {
            let ids = cc.user_ids@.map_values(|u: String| u@);
            lemma_with_users(before.users(), ids);
            if op == 11 {
                assert forall|i: int| 0 <= i < cc.user_ids@.len() implies after.users().contains(
                    #[trigger] cc.user_ids@[i]@,
                ) by {
                    assert(ids[i] == cc.user_ids@[i]@);
                }
            }
        },
        MessageBody::ClientDisconnect(cd) => {
            lemma_without_user(before.users(), cd.user_id@);
        },
        _ => {},
    }
}

/// A transition that DAVE_PREPARE_TRANSITION prepared and DAVE_EXECUTE_TRANSITION
/// then executed is no longer pending.
pub proof fn lemma_executed_transition_leaves(
    c0: VoiceConnection,
    c1: VoiceConnection,
    c2: VoiceConnection,
    prepare: DavePrepareTransition,
    execute: DaveExecuteTransition,
    s1: Option<i64>,
    s2: Option<i64>,
    r1: Result<Vec<VoiceAction>, ConnectionError>,
    r2: Result<Vec<VoiceAction>, ConnectionError>,
)
    requires
        execute.transition_id == prepare.transition_id,
        message_outcome(c0, c1, 21, s1, MessageBody::DavePrepareTransition(prepare), r1),
        message_outcome(c1, c2, 22, s2, MessageBody::DaveExecuteTransition(execute), r2),
    ensures
        !c2.pending().contains_key(prepare.transition_id),
        prepare.transition_id != 0 ==> c1.pending().contains_key(prepare.transition_id)
            && c1.pending()[prepare.transition_id] == prepare.protocol_version,
{
}

} // verus!

//! Voice gateway message payloads (the JSON ones are serialized outside the
//! library) and the binary frame layout.
use vstd::prelude::*;

verus! {

/// IDENTIFY payload.
#[derive(Debug, Clone)]
pub struct Identify {
    pub server_id: String,
    pub user_id: String,
    pub session_id: String,
    pub token: String,
    pub video: bool,
    pub streams: Vec<StreamDesc>,
}

/// One simulcast stream offered in IDENTIFY (`type` is `kind` here).
#[derive(Debug, Clone)]
pub struct StreamDesc {
    pub kind: String,
    pub rid: String,
    pub quality: u8,
}

/// RESUME payload.
#[derive(Debug, Clone)]
pub struct Resume {
    pub server_id: String,
    pub session_id: String,
    pub token: String,
    pub seq_ack: i64,
}

/// HEARTBEAT payload.
#[derive(Debug, Clone)]
pub struct Heartbeat {
    pub t: u64,
    pub seq_ack: i64,
}

/// SELECT_PROTOCOL payload.
#[derive(Debug, Clone)]
pub struct SelectProtocol {
    pub protocol: String,
    pub data: SelectProtocolData,
    pub sdp: String,
    pub codecs: Vec<CodecInfo>,
    pub experiments: Vec<String>,
    pub dave_protocol_version: u16,
    pub address: String,
    pub port: u16,
    pub mode: String,
}

/// The transport part of SELECT_PROTOCOL.
#[derive(Debug, Clone)]
pub struct SelectProtocolData {
    pub address: String,
    pub port: u16,
    pub mode: String,
}

/// A codec offered in SELECT_PROTOCOL (`type` is `kind` here).
#[derive(Debug, Clone)]
pub struct CodecInfo {
    pub name: String,
    pub payload_type: u8,
    pub kind: String,
    pub priority: u16,
    pub rtx_payload_type: Option<u8>,
}

/// SPEAKING payload.
#[derive(Debug, Clone)]
pub struct Speaking {
    pub speaking: u8,
    pub delay: u32,
    pub ssrc: u32,
}

/// VIDEO payload.
#[derive(Debug, Clone)]
pub struct VideoAttributes {
    pub audio_ssrc: u32,
    pub video_ssrc: u32,
    pub rtx_ssrc: u32,
    pub streams: Vec<VideoStream>,
}

/// One video stream in a VIDEO payload.
#[derive(Debug, Clone)]
pub struct VideoStream {
    pub active: bool,
    pub description: Option<String>,
    pub quality: u8,
    pub rid: String,
    pub rtx_ssrc: u32,
    pub ssrc: u32,
}

/// DAVE_TRANSITION_READY payload.
#[derive(Debug, Clone, Copy)]
pub struct DaveTransitionReady {
    pub transition_id: u64,
}

/// MLS_INVALID_COMMIT_WELCOME payload.
#[derive(Debug, Clone, Copy)]
pub struct MlsInvalidCommitWelcome {
    pub transition_id: u64,
}

/// READY payload.
#[derive(Debug, Clone)]
pub struct Ready {
    pub ssrc: u32,
    pub ip: String,
    pub port: u16,
    pub modes: Vec<String>,
    pub streams: Vec<ReadyStream>,
}

/// One stream in READY.
#[derive(Debug, Clone, Copy)]
pub struct ReadyStream {
    pub ssrc: u32,
    pub rtx_ssrc: u32,
}

/// SELECT_PROTOCOL_ACK payload.
#[derive(Debug, Clone)]
pub struct SelectProtocolAck {
    pub sdp: Option<String>,
    pub dave_protocol_version: Option<u16>,
}

/// CLIENTS_CONNECT payload.
#[derive(Debug, Clone)]
pub struct ClientsConnect {
    pub user_ids: Vec<String>,
}

/// CLIENT_DISCONNECT payload.
#[derive(Debug, Clone)]
pub struct ClientDisconnect {
    pub user_id: String,
}

/// DAVE_PREPARE_TRANSITION payload.
#[derive(Debug, Clone, Copy)]
pub struct DavePrepareTransition {
    pub transition_id: u64,
    pub protocol_version: u16,
}

/// DAVE_EXECUTE_TRANSITION payload.
#[derive(Debug, Clone, Copy)]
pub struct DaveExecuteTransition {
    pub transition_id: u64,
}

/// DAVE_PREPARE_EPOCH payload.
#[derive(Debug, Clone, Copy)]
pub struct DavePrepareEpoch {
    pub epoch: u64,
    pub protocol_version: u16,
}

/// A binary voice gateway frame: a big-endian 16-bit sequence number, an opcode byte,
/// then the payload.
pub struct BinaryMessage {
    pub seq: u16,
    pub op: u8,
    pub payload: Vec<u8>,
}

/// The bytes of a binary frame.
pub open spec fn frame_bytes(seq: u16, op: u8, payload: Seq<u8>) -> Seq<u8> {
    seq![(seq / 256) as u8, (seq % 256) as u8, op] + payload
}

impl BinaryMessage {
    /// Parses a binary frame; frames shorter than 3 bytes are refused.
    pub fn parse(data: &[u8]) -> (r: Option<Self>)
        ensures
            r is Some <==> data@.len() >= 3,
            r matches Some(m) ==> m.seq == data@[0] as int * 256 + data@[1] as int && m.op
                == data@[2] && m.payload@ == data@.subrange(3, data@.len() as int),
    {
        if data.len() < 3 {
            return None;
        }
        let seq: u16 = ((data[0] as u16) << 8) | data[1] as u16;
        proof {
            let a = data@[0];
            let b = data@[1];
            assert(((a as u16) << 8u16) | (b as u16) == a as u16 * 256 + b as u16) by (bit_vector);
        }
        let op = data[2];
        let mut payload: Vec<u8> = Vec::new();
        payload.extend_from_slice(&data[3..data.len()]);
        Some(BinaryMessage { seq, op, payload })
    }

    /// Encodes a binary frame.
    pub fn encode(seq: u16, op: u8, payload: &[u8]) -> (r: Vec<u8>)
        ensures
            r@ == frame_bytes(seq, op, payload@),
    {
        let mut out: Vec<u8> = Vec::new();
        out.push((seq >> 8) as u8);
        out.push((seq & 0xFF) as u8);
        proof {
            assert((seq >> 8u16) as u8 == (seq / 256) as u8 && (seq & 0xFFu16) as u8 == (seq % 256) as u8) by (bit_vector);
        }
        out.push(op);
        out.extend_from_slice(payload);
        proof {
            assert(out@ =~= frame_bytes(seq, op, payload@));
        }
        out
    }
}

/// Parsing an encoded frame gives back its sequence number, opcode and payload.
pub proof fn lemma_binary_frame_roundtrip(seq: u16, op: u8, payload: Seq<u8>)
    ensures
        ({
            let b = frame_bytes(seq, op, payload);
            &&& b.len() >= 3
            &&& b[0] as int * 256 + b[1] as int == seq
            &&& b[2] == op
            &&& b.subrange(3, b.len() as int) == payload
        }),
{
    let b = frame_bytes(seq, op, payload);
    assert(b.subrange(3, b.len() as int) =~= payload);
}

} // verus!

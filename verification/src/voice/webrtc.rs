//! RTP packetization state and the H264 frame preparation done before sending.
use vstd::prelude::*;
use std::time::{Duration, SystemTime, SystemTimeError};
use crate::processing::annexb::{slices_view, split_nalu, split_nalus, start_code_4};
use crate::processing::sps_spec::spec_rewrite_sps_vui;
use crate::processing::sps_vui::try_rewrite_sps_vui;
use crate::utils::{codec_of_uppercase, normalize_video_codec, uppercase, VideoCodec};
use crate::voice::codec_payload::{opus, video_codec_info};
use crate::voice::connection::WebRtcParams;
use crate::dave::{DaveCodec, DaveHandler, DaveMediaType, DaveRequest};

verus! {

/// Errors of the WebRTC layer.
#[derive(Debug)]
pub enum WebRtcError {
    NotInitialized,
    PacketizerNotConfigured,
    /// Holds the codec name that was not understood.
    UnknownCodec(String),
    /// Holds the WebRTC stack's message.
    Webrtc(String),
    /// Holds the E2EE session's message.
    Dave(String),
}

#[verifier::external_type_specification]
#[verifier::external_body]
pub struct ExSystemTime(SystemTime);

#[verifier::external_type_specification]
#[verifier::external_body]
pub struct ExSystemTimeError(SystemTimeError);

/// `SystemTime::now`: the current wall-clock time (nothing is known of it).
#[verifier::external_body]
fn system_time_now() -> SystemTime {
    SystemTime::now()
}

/// `SystemTime::duration_since` the Unix epoch (nothing is known of the result).
#[verifier::external_body]
fn duration_since_epoch(t: &SystemTime) -> Result<Duration, SystemTimeError> {
    t.duration_since(std::time::UNIX_EPOCH)
}

/// `Duration::subsec_nanos`: the fractional part of a duration in nanoseconds, which
/// the documentation bounds below one second.
#[verifier::external_body]
fn subsec_nanos(d: &Duration) -> (r: u32)
    ensures
        r < 1_000_000_000,
{
    d.subsec_nanos()
}

/// The nanoseconds within the current second (0 where the clock is before 1970).
fn now_subsec_nanos() -> (r: u32)
    ensures
        r < 1_000_000_000,
{
    let now = system_time_now();
    match duration_since_epoch(&now) {
        Ok(d) => subsec_nanos(&d),
        Err(_) => 0,
    }
}

/// A starting RTP sequence number taken from the clock.
pub fn rand_seq() -> u16 {
    (now_subsec_nanos() & 0xFFFF) as u16
}

/// A starting RTP timestamp taken from the clock.
pub fn rand_timestamp() -> (r: u32)
    ensures
        r < 1_000_000_000,
{
    now_subsec_nanos()
}

/// The 12-byte RTP header: version 2, the marker bit, payload type, then big-endian
/// sequence number, timestamp and SSRC.
pub open spec fn rtp_header(marker: bool, payload_type: u8, seq: u16, timestamp: u32, ssrc: u32) -> Seq<u8> {
    seq![
        0x80u8,
        if marker { (0x80u8 | payload_type) as u8 } else { payload_type },
        (seq / 256) as u8,
        (seq % 256) as u8,
        (timestamp / 0x100_0000) as u8,
        ((timestamp / 0x1_0000) % 256) as u8,
        ((timestamp / 256) % 256) as u8,
        (timestamp % 256) as u8,
        (ssrc / 0x100_0000) as u8,
        ((ssrc / 0x1_0000) % 256) as u8,
        ((ssrc / 256) % 256) as u8,
        (ssrc % 256) as u8,
    ]
}

/// Pushes a big-endian 32-bit number.
fn push_u32_be(out: &mut Vec<u8>, v: u32)
    ensures
        final(out)@ == old(out)@ + seq![
            (v / 0x100_0000) as u8,
            ((v / 0x1_0000) % 256) as u8,
            ((v / 256) % 256) as u8,
            (v % 256) as u8,
        ],
{
    out.push((v >> 24) as u8);
    out.push(((v >> 16) & 0xFF) as u8);
    out.push(((v >> 8) & 0xFF) as u8);
    out.push((v & 0xFF) as u8);
    proof {
        assert((v >> 24u32) as u8 == (v / 0x100_0000) as u8 && ((v >> 16u32) & 0xFFu32) as u8 == ((v
            / 0x1_0000) % 256) as u8 && ((v >> 8u32) & 0xFFu32) as u8 == ((v / 256) % 256) as u8
            && (v & 0xFFu32) as u8 == (v % 256) as u8) by (bit_vector);
        assert(final(out)@ =~= old(out)@ + seq![
            (v / 0x100_0000) as u8,
            ((v / 0x1_0000) % 256) as u8,
            ((v / 256) % 256) as u8,
            (v % 256) as u8,
        ]);
    }
}

/// Per-track RTP state: the next sequence number and timestamp, and the fixed SSRC,
/// payload type and clock rate.
pub struct RtpState {
    seq: u16,
    timestamp: u32,
    ssrc: u32,
    payload_type: u8,
    clock_rate: u32,
}

impl RtpState {
    pub closed spec fn seq(&self) -> u16 {
        self.seq
    }

    pub closed spec fn timestamp(&self) -> u32 {
        self.timestamp
    }

    pub closed spec fn ssrc(&self) -> u32 {
        self.ssrc
    }

    pub closed spec fn payload_type(&self) -> u8 {
        self.payload_type
    }

    pub closed spec fn clock_rate(&self) -> u32 {
        self.clock_rate
    }

    /// A track state starting at a clock-derived sequence number and timestamp.
    pub fn new(ssrc: u32, payload_type: u8, clock_rate: u32) -> (r: Self)
        ensures
            r.ssrc() == ssrc,
            r.payload_type() == payload_type,
            r.clock_rate() == clock_rate,
            r.timestamp() < 1_000_000_000,
    {
        RtpState { seq: rand_seq(), timestamp: rand_timestamp(), ssrc, payload_type, clock_rate }
    }

    /// The clock rate of the track.
    pub fn clock_rate_hz(&self) -> (r: u32)
        ensures
            r == self.clock_rate(),
    {
        self.clock_rate
    }

    /// Builds an RTP packet (header, then `payload`) and moves to the next sequence
    /// number.
    pub fn make_packet(&mut self, payload: &[u8], marker: bool) -> (r: Vec<u8>)
        ensures
            r@ == rtp_header(marker, old(self).payload_type(), old(self).seq(), old(self).timestamp(), old(self).ssrc()) + payload@,
            final(self).seq() == (if old(self).seq() == 0xFFFF { 0 } else { old(self).seq() + 1 }),
            final(self).timestamp() == old(self).timestamp(),
            final(self).ssrc() == old(self).ssrc(),
            final(self).payload_type() == old(self).payload_type(),
            final(self).clock_rate() == old(self).clock_rate(),
    {
        let mut pkt: Vec<u8> = Vec::new();
        pkt.push(0x80);
        pkt.push(if marker { 0x80 | self.payload_type } else { self.payload_type });
        pkt.push((self.seq >> 8) as u8);
        pkt.push((self.seq & 0xFF) as u8);
        let s = self.seq;
        proof {
            assert((s >> 8u16) as u8 == (s / 256) as u8 && (s & 0xFFu16) as u8 == (s % 256) as u8) by (bit_vector);
        }
        push_u32_be(&mut pkt, self.timestamp);
        push_u32_be(&mut pkt, self.ssrc);
        pkt.extend_from_slice(payload);
        self.seq = self.seq.wrapping_add(1);
        proof {
            assert(pkt@ =~= rtp_header(marker, self.payload_type, s, self.timestamp, self.ssrc) + payload@);
        }
        pkt
    }

    /// Moves the timestamp on by `ticks` clock ticks, wrapping at 2^32.
    pub fn advance_timestamp_ticks(&mut self, ticks: u32)
        ensures
            final(self).timestamp() == (old(self).timestamp() as int + ticks as int) % 0x1_0000_0000,
            final(self).seq() == old(self).seq(),
            final(self).ssrc() == old(self).ssrc(),
            final(self).payload_type() == old(self).payload_type(),
            final(self).clock_rate() == old(self).clock_rate(),
    {
        self.timestamp = self.timestamp.wrapping_add(ticks);
    }
}

/// After a packet, a track's next sequence number is the previous one plus one,
/// modulo 2^16, and its timestamp and SSRC are unchanged.
pub proof fn lemma_rtp_sequence_advances(before: RtpState, after: RtpState)
    requires
        packet_sent(before, after),
    ensures
        after.seq() == (before.seq() as int + 1) % 0x1_0000,
        after.timestamp() == before.timestamp(),
        after.ssrc() == before.ssrc(),
{
}

/// The RTP payload type of a video codec.
pub open spec fn video_payload_type(c: VideoCodec) -> u8 {
    match c {
        VideoCodec::H264 => 101u8,
        VideoCodec::H265 => 103u8,
        VideoCodec::Vp8 => 105u8,
        VideoCodec::Vp9 => 107u8,
        VideoCodec::Av1 => 109u8,
    }
}

/// The audio and video RTP states and the video codec of a configured packetizer.
pub struct PacketizerConfig {
    pub audio: RtpState,
    pub video: RtpState,
    pub codec: VideoCodec,
}

/// Configures the RTP states from READY's SSRCs and a video codec name: Opus for audio,
/// the named codec's payload type and clock rate for video; an unknown codec name is
/// refused.
pub fn configure_packetizer(params: &WebRtcParams, video_codec: &str) -> (r: Result<PacketizerConfig, WebRtcError>)
    ensures
        match codec_of_uppercase(uppercase(video_codec@)) {
            Some(c) => r matches Ok(cfg) && cfg.codec == c && cfg.audio.ssrc() == params.audio_ssrc
                && cfg.audio.payload_type() == 120 && cfg.audio.clock_rate() == 48_000
                && cfg.video.ssrc() == params.video_ssrc && cfg.video.clock_rate() == 90_000
                && cfg.video.payload_type() == video_payload_type(c),
            None => r matches Err(WebRtcError::UnknownCodec(name)) && name@ == video_codec@,
        },
{
    let codec = match normalize_video_codec(video_codec) {
        Ok(c) => c,
        Err(e) => return Err(WebRtcError::UnknownCodec(e.0)),
    };
    let video_info = video_codec_info(codec);
    let audio_info = opus();
    let audio = RtpState::new(params.audio_ssrc, audio_info.payload_type, audio_info.clock_rate);
    let video = RtpState::new(params.video_ssrc, video_info.payload_type, video_info.clock_rate);
    Ok(PacketizerConfig { audio, video, codec })
}

/// An H264 frame with each NAL unit after a 4-byte start code and each SPS's VUI
/// rewritten; `None` where an SPS cannot be rewritten.
pub open spec fn rewritten_nalus(ns: Seq<Seq<u8>>) -> Option<Seq<u8>>
    decreases ns.len(),
{
    if ns.len() == 0 {
        Some(Seq::empty())
    } else {
        let n = ns[0];
        match rewritten_nalus(ns.drop_first()) {
            None => None,
            Some(rest) => if n.len() == 0 {
                Some(rest)
            } else if n[0] & 0x1F == 7 {
                match spec_rewrite_sps_vui(n) {
                    Some(x) => Some(start_code_4() + x + rest),
                    None => None,
                }
            } else {
                Some(start_code_4() + n + rest)
            },
        }
    }
}

/// Rewrites every SPS in an H264 Annex-B frame as `rewrite_sps_vui` does and writes
/// all NAL units after 4-byte start codes; `None` where an SPS cannot be read through.
pub fn try_rewrite_h264_sps_vui(frame: &[u8]) -> (r: Option<Vec<u8>>)
    ensures
        match rewritten_nalus(split_nalus(frame@)) {
            None => r is None,
            Some(out) => r is Some && r->0@ == out,
        },
{
    let nalus = split_nalu(frame);
    let ghost all = split_nalus(frame@);
    let mut out: Vec<u8> = Vec::new();
    let mut i: usize = 0;
    proof {
        assert(slices_view(nalus@).subrange(0, nalus@.len() as int) =~= all);
    }
    while i < nalus.len()
        invariant
            slices_view(nalus@) == all,
            all == split_nalus(frame@),
            i <= nalus@.len(),
            rewritten_nalus(all) == match rewritten_nalus(all.subrange(i as int, all.len() as int)) {
                Some(rest) => Some(out@ + rest),
                None => None,
            },
        decreases nalus@.len() - i,
    {
        let nalu = nalus[i];
        let ghost tail = all.subrange(i as int, all.len() as int);
        proof {
            assert(tail[0] == nalu@);
            assert(tail.drop_first() =~= all.subrange(i + 1, all.len() as int));
        }
        if nalu.len() == 0 {
            i = i + 1;
            continue;
        }
        let unit_type = nalu[0] & 0x1F;
        let ghost before = out@;
        out.push(0);
        out.push(0);
        out.push(0);
        out.push(1);
        if unit_type == 7 {
            match try_rewrite_sps_vui(nalu) {
                Some(rewritten) => {
                    out.extend_from_slice(rewritten.as_slice());
                },
                None => {
                    proof {
                        assert(rewritten_nalus(tail) is None);
                    }
                    return None;
                },
            }
        } else {
            out.extend_from_slice(nalu);
        }
        proof {
            let rest = rewritten_nalus(all.subrange(i + 1, all.len() as int));
            if rest is Some {
                assert(before + (start_code_4() + (out@.subrange(before.len() as int + 4, out@.len() as int)) + rest->0) =~= out@ + rest->0);
            }
            assert(out@ =~= before + start_code_4() + out@.subrange(before.len() as int + 4, out@.len() as int));
        }
        i = i + 1;
    }
    proof {
        assert(all.subrange(i as int, all.len() as int) =~= Seq::<Seq<u8>>::empty());
        assert(out@ + Seq::<u8>::empty() =~= out@);
    }
    Some(out)
}

/// Rewrites every SPS in an H264 Annex-B frame so that `max_num_reorder_frames = 0`,
/// writing all NAL units after 4-byte start codes.
pub fn rewrite_h264_sps_vui(frame: &[u8]) -> (r: Vec<u8>)
    requires
        rewritten_nalus(split_nalus(frame@)) is Some,
    ensures
        r@ == rewritten_nalus(split_nalus(frame@))->0,
{
    match try_rewrite_h264_sps_vui(frame) {
        Some(v) => v,
        None => Vec::new(),
    }
}

/// The DAVE codec of a video codec.
pub open spec fn dave_codec_of(codec: VideoCodec) -> DaveCodec {
    match codec {
        VideoCodec::H264 => DaveCodec::H264,
        VideoCodec::H265 => DaveCodec::H265,
        VideoCodec::Vp8 => DaveCodec::Vp8,
        VideoCodec::Vp9 => DaveCodec::Vp9,
        VideoCodec::Av1 => DaveCodec::Av1,
    }
}

/// The DAVE codec of a video codec.
pub fn dave_codec(codec: VideoCodec) -> (r: DaveCodec)
    ensures
        r == dave_codec_of(codec),
{
    match codec {
        VideoCodec::H264 => DaveCodec::H264,
        VideoCodec::H265 => DaveCodec::H265,
        VideoCodec::Vp8 => DaveCodec::Vp8,
        VideoCodec::Vp9 => DaveCodec::Vp9,
        VideoCodec::Av1 => DaveCodec::Av1,
    }
}

/// The RTP side of the WebRTC layer: the audio and video track states and the
/// video codec, once configured from READY.
pub struct Packetizer {
    audio: Option<RtpState>,
    video: Option<RtpState>,
    codec: Option<VideoCodec>,
}

/// The payload of a packet that was built, as DAVE's answer records it: `None`
/// for a failure.
pub open spec fn payload_of(r: Result<Vec<u8>, WebRtcError>) -> Option<Seq<u8>> {
    match r {
        Ok(pkt) => Some(pkt@.skip(12)),
        Err(_) => None,
    }
}

/// What a video frame becomes before encryption: for H264, every SPS rewritten.
pub open spec fn prepared_frame(codec: VideoCodec, frame: Seq<u8>) -> Seq<u8> {
    if codec == VideoCodec::H264 {
        rewritten_nalus(split_nalus(frame))->0
    } else {
        frame
    }
}

/// `after` is the RTP state `before` after one packet: the next sequence number.
pub open spec fn packet_sent(before: RtpState, after: RtpState) -> bool {
    &&& after.seq() == (if before.seq() == 0xFFFF { 0 } else { before.seq() + 1 })
    &&& after.timestamp() == before.timestamp()
    &&& after.ssrc() == before.ssrc()
    &&& after.payload_type() == before.payload_type()
    &&& after.clock_rate() == before.clock_rate()
}

impl Packetizer {
    /// The audio track state, once configured.
    pub closed spec fn audio_state(&self) -> Option<RtpState> {
        self.audio
    }

    /// The video track state, once configured.
    pub closed spec fn video_state(&self) -> Option<RtpState> {
        self.video
    }

    /// The video codec, once configured.
    pub closed spec fn video_codec(&self) -> Option<VideoCodec> {
        self.codec
    }

    /// A packetizer not configured yet.
    pub fn new() -> (r: Self)
        ensures
            r.audio_state() is None,
            r.video_state() is None,
            r.video_codec() is None,
    {
        Packetizer { audio: None, video: None, codec: None }
    }

    /// Configures both tracks from READY's SSRCs and a video codec name (see
    /// [`configure_packetizer`]); an unknown codec name changes nothing.
    pub fn set_packetizer(&mut self, params: &WebRtcParams, video_codec: &str) -> (r: Result<(), WebRtcError>)
        ensures
            match codec_of_uppercase(uppercase(video_codec@)) {
                Some(c) => r is Ok && final(self).video_codec() == Some(c)
                    && (final(self).audio_state() matches Some(a) && a.ssrc() == params.audio_ssrc
                    && a.payload_type() == 120 && a.clock_rate() == 48_000)
                    && (final(self).video_state() matches Some(v) && v.ssrc() == params.video_ssrc
                    && v.clock_rate() == 90_000 && v.payload_type() == video_payload_type(c)),
                None => (r matches Err(WebRtcError::UnknownCodec(name)) && name@ == video_codec@)
                    && final(self).audio_state() == old(self).audio_state()
                    && final(self).video_state() == old(self).video_state()
                    && final(self).video_codec() == old(self).video_codec(),
            },
    {
        match configure_packetizer(params, video_codec) {
            Ok(cfg) => {
                self.audio = Some(cfg.audio);
                self.video = Some(cfg.video);
                self.codec = Some(cfg.codec);
                Ok(())
            },
            Err(e) => Err(e),
        }
    }

    /// Encrypts an Opus frame end to end and packs it in the next audio RTP packet
    /// (marker set); the audio track must be configured. When the DAVE session is
    /// ready the frame goes to it and its answer is the payload; otherwise the
    /// frame goes as it is.
    pub fn audio_packet(&mut self, dave: &mut DaveHandler, frame: &[u8]) -> (r: Result<Vec<u8>, WebRtcError>)
        ensures
            final(dave).same_state(old(dave)),
            final(dave).requests() == if old(self).audio_state() is Some && old(dave).ready() {
                old(dave).requests().push(DaveRequest::EncryptOpus { frame: frame@, out: payload_of(r) })
            } else {
                old(dave).requests()
            },
            old(self).audio_state() is Some && !old(dave).ready() ==> r is Ok && r->Ok_0@.skip(12) == frame@,
            final(self).video_state() == old(self).video_state(),
            final(self).video_codec() == old(self).video_codec(),
            old(self).audio_state() is None ==> (r matches Err(WebRtcError::PacketizerNotConfigured))
                && final(self).audio_state() is None,
            old(self).audio_state() matches Some(a) ==> match r {
                Ok(pkt) => final(self).audio_state() matches Some(a2) && packet_sent(a, a2)
                    && pkt@.len() >= 12 && pkt@.take(12) == rtp_header(true, a.payload_type(), a.seq(), a.timestamp(), a.ssrc()),
                Err(e) => e is Dave && final(self).audio_state() == old(self).audio_state(),
            },
    {
        match &mut self.audio {
            None => Err(WebRtcError::PacketizerNotConfigured),
            Some(state) => {
                let encrypted = match dave.encrypt_opus(frame) {
                    Ok(v) => v,
                    Err(e) => return Err(WebRtcError::Dave(e.to_string())),
                };
                let pkt = state.make_packet(encrypted.as_slice(), true);
                proof {
                    assert(pkt@.take(12) =~= rtp_header(true, old(self).audio_state()->Some_0.payload_type(), old(self).audio_state()->Some_0.seq(), old(self).audio_state()->Some_0.timestamp(), old(self).audio_state()->Some_0.ssrc()));
                    assert(pkt@.skip(12) =~= encrypted@);
                }
                Ok(pkt)
            },
        }
    }

    /// Prepares a video frame (for H264, every SPS rewritten, see
    /// [`rewrite_h264_sps_vui`]), encrypts it end to end and packs it in the next
    /// video RTP packet (marker set); the video track must be configured. When the
    /// DAVE session is ready the prepared frame goes to it and its answer is the
    /// payload; otherwise the prepared frame goes as it is.
    pub fn video_packet(&mut self, dave: &mut DaveHandler, frame: &[u8]) -> (r: Result<Vec<u8>, WebRtcError>)
        requires
            old(self).video_codec() == Some(VideoCodec::H264) ==> rewritten_nalus(split_nalus(frame@)) is Some,
        ensures
            final(dave).same_state(old(dave)),
            final(dave).requests() == if old(self).video_state() is Some && old(self).video_codec() is Some
                && old(dave).ready() {
                old(dave).requests().push(
                    DaveRequest::Encrypt {
                        media: DaveMediaType::Video,
                        codec: dave_codec_of(old(self).video_codec()->Some_0),
                        frame: prepared_frame(old(self).video_codec()->Some_0, frame@),
                        out: payload_of(r),
                    },
                )
            } else {
                old(dave).requests()
            },
            old(self).video_state() is Some && old(self).video_codec() is Some && !old(dave).ready() ==> r is Ok
                && r->Ok_0@.skip(12) == prepared_frame(old(self).video_codec()->Some_0, frame@),
            final(self).audio_state() == old(self).audio_state(),
            final(self).video_codec() == old(self).video_codec(),
            old(self).video_state() is None || old(self).video_codec() is None ==> (r matches Err(
                WebRtcError::PacketizerNotConfigured,
            )) && final(self).video_state() == old(self).video_state(),
            old(self).video_state() is Some && old(self).video_codec() is Some ==> {
                let v = old(self).video_state()->Some_0;
                let c = old(self).video_codec()->Some_0;
                match r {
                Ok(pkt) => final(self).video_state() matches Some(v2) && packet_sent(v, v2)
                    && pkt@.len() >= 12 && pkt@.take(12) == rtp_header(true, v.payload_type(), v.seq(), v.timestamp(), v.ssrc()),
                Err(e) => e is Dave && final(self).video_state() == old(self).video_state(),
                }
            },
    {
        let codec = match self.codec {
            Some(c) => c,
            None => return Err(WebRtcError::PacketizerNotConfigured),
        };
        match &mut self.video {
            None => Err(WebRtcError::PacketizerNotConfigured),
            Some(state) => {
                let processed: Vec<u8> = if codec == VideoCodec::H264 {
                    rewrite_h264_sps_vui(frame)
                } else {
                    vstd::slice::slice_to_vec(frame)
                };
                let encrypted = match dave.encrypt(DaveMediaType::Video, dave_codec(codec), processed.as_slice()) {
                    Ok(v) => v,
                    Err(e) => return Err(WebRtcError::Dave(e.to_string())),
                };
                let pkt = state.make_packet(encrypted.as_slice(), true);
                proof {
                    assert(pkt@.take(12) =~= rtp_header(true, old(self).video_state()->Some_0.payload_type(), old(self).video_state()->Some_0.seq(), old(self).video_state()->Some_0.timestamp(), old(self).video_state()->Some_0.ssrc()));
                    assert(pkt@.skip(12) =~= encrypted@);
                }
                Ok(pkt)
            },
        }
    }

    /// Moves the audio timestamp on by `ticks`, if the track is configured.
    pub fn advance_audio(&mut self, ticks: u32)
        ensures
            final(self).video_state() == old(self).video_state(),
            final(self).video_codec() == old(self).video_codec(),
            match old(self).audio_state() {
                Some(a) => final(self).audio_state() matches Some(a2) && a2.timestamp() == (a.timestamp() as int + ticks as int) % 0x1_0000_0000
                    && a2.seq() == a.seq() && a2.ssrc() == a.ssrc() && a2.payload_type() == a.payload_type() && a2.clock_rate() == a.clock_rate(),
                None => final(self).audio_state() is None,
            },
    {
        if let Some(state) = &mut self.audio {
            state.advance_timestamp_ticks(ticks);
        }
    }

    /// Moves the video timestamp on by `ticks`, if the track is configured.
    pub fn advance_video(&mut self, ticks: u32)
        ensures
            final(self).audio_state() == old(self).audio_state(),
            final(self).video_codec() == old(self).video_codec(),
            match old(self).video_state() {
                Some(v) => final(self).video_state() matches Some(v2) && v2.timestamp() == (v.timestamp() as int + ticks as int) % 0x1_0000_0000
                    && v2.seq() == v.seq() && v2.ssrc() == v.ssrc() && v2.payload_type() == v.payload_type() && v2.clock_rate() == v.clock_rate(),
                None => final(self).video_state() is None,
            },
    {
        if let Some(state) = &mut self.video {
            state.advance_timestamp_ticks(ticks);
        }
    }

    /// The clock rates of the audio and video tracks, once configured.
    pub fn clock_rates(&self) -> (r: (Option<u32>, Option<u32>))
        ensures
            r.0 == match self.audio_state() {
                Some(a) => Some(a.clock_rate()),
                None => None::<u32>,
            },
            r.1 == match self.video_state() {
                Some(v) => Some(v.clock_rate()),
                None => None::<u32>,
            },
    {
        let a = match &self.audio {
            Some(s) => Some(s.clock_rate_hz()),
            None => None,
        };
        let v = match &self.video {
            Some(s) => Some(s.clock_rate_hz()),
            None => None,
        };
        (a, v)
    }

    /// Forgets both tracks, as closing the connection does; the codec stays.
    pub fn clear(&mut self)
        ensures
            final(self).audio_state() is None,
            final(self).video_state() is None,
            final(self).video_codec() == old(self).video_codec(),
    {
        self.audio = None;
        self.video = None;
    }
}

} // verus!

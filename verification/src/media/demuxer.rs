//! What the demuxer decides: which streams of a container it plays, which of them a
//! packet belongs to, and how long an Opus packet lasts.
use vstd::prelude::*;
use crate::processing::bits::lemma_bit_facts;

verus! {

/// The container formats the demuxer reads.
#[derive(Debug, Clone, Copy, PartialEq, Eq, Structural)]
pub enum ContainerFormat {
    Matroska,
    Nut,
}

impl ContainerFormat {
    /// The format's name.
    pub open spec fn name(self) -> Seq<char> {
        match self {
            ContainerFormat::Matroska => "matroska"@,
            ContainerFormat::Nut => "nut"@,
        }
    }

    /// The format's name.
    pub fn as_str(self) -> (r: &'static str)
        ensures
            r@ == self.name(),
    {
        match self {
            ContainerFormat::Matroska => "matroska",
            ContainerFormat::Nut => "nut",
        }
    }
}

/// The kind of media a container stream holds.
#[derive(Debug, Clone, Copy, PartialEq, Eq, Structural)]
pub enum StreamMedium {
    Video,
    Audio,
    Other,
}

/// The codec of a container stream; any codec the demuxer does not play is
/// `Other` with its codec id.
#[derive(Debug, Clone, Copy, PartialEq, Eq, Structural)]
pub enum StreamCodec {
    H264,
    Hevc,
    Vp8,
    Vp9,
    Av1,
    Opus,
    Other(u32),
}

/// A container stream as the demuxer sees it: its index in the container, its
/// medium and its codec.
#[derive(Debug, Clone, Copy, PartialEq, Eq, Structural)]
pub struct StreamProbe {
    pub index: usize,
    pub medium: StreamMedium,
    pub codec: StreamCodec,
}

/// Why a container cannot be played.
#[derive(Debug)]
pub enum DemuxError {
    /// The media library failed; its message.
    Ffmpeg(String),
    /// The first video stream has a codec that cannot be sent.
    UnsupportedVideoCodec(StreamCodec),
    /// The first audio stream has a codec that cannot be sent.
    UnsupportedAudioCodec(StreamCodec),
    /// The container has neither a video nor an audio stream.
    NoStreams,
}

/// The streams chosen to play: positions in the list of container streams.
#[derive(Debug, Clone, Copy, PartialEq, Eq, Structural)]
pub struct StreamSelection {
    pub video: Option<usize>,
    pub audio: Option<usize>,
}

/// Whether video in `codec` can be sent: H264, H265, VP8, VP9 or AV1.
pub open spec fn is_allowed_video(codec: StreamCodec) -> bool {
    match codec {
        StreamCodec::H264 | StreamCodec::Hevc | StreamCodec::Vp8 | StreamCodec::Vp9 | StreamCodec::Av1 => true,
        _ => false,
    }
}

/// Whether audio in `codec` can be sent: Opus only.
pub open spec fn is_allowed_audio(codec: StreamCodec) -> bool {
    codec == StreamCodec::Opus
}

/// The choice after looking at the first `n` streams: the first video stream and
/// the first audio stream, each refused where its codec cannot be sent.
pub open spec fn select_prefix(streams: Seq<StreamProbe>, n: nat) -> Result<(Option<nat>, Option<nat>), DemuxError>
    decreases n,
{
    if n == 0 {
        Ok((None, None))
    } else {
        match select_prefix(streams, (n - 1) as nat) {
            Err(e) => Err(e),
            Ok((v, a)) => {
                let s = streams[n - 1];
                if s.medium == StreamMedium::Video && v is None {
                    if is_allowed_video(s.codec) {
                        Ok((Some((n - 1) as nat), a))
                    } else {
                        Err(DemuxError::UnsupportedVideoCodec(s.codec))
                    }
                } else if s.medium == StreamMedium::Audio && a is None {
                    if is_allowed_audio(s.codec) {
                        Ok((v, Some((n - 1) as nat)))
                    } else {
                        Err(DemuxError::UnsupportedAudioCodec(s.codec))
                    }
                } else {
                    Ok((v, a))
                }
            },
        }
    }
}

/// The streams to play: the first video and the first audio stream, at least one
/// of them; see [`select_prefix`].
pub open spec fn spec_select_streams(streams: Seq<StreamProbe>) -> Result<(Option<nat>, Option<nat>), DemuxError> {
    match select_prefix(streams, streams.len()) {
        Ok((None, None)) => Err(DemuxError::NoStreams),
        other => other,
    }
}

fn is_allowed_video_codec(codec: StreamCodec) -> (r: bool)
    ensures
        r == is_allowed_video(codec),
{
    match codec {
        StreamCodec::H264 | StreamCodec::Hevc | StreamCodec::Vp8 | StreamCodec::Vp9 | StreamCodec::Av1 => true,
        _ => false,
    }
}

fn is_allowed_audio_codec(codec: StreamCodec) -> (r: bool)
    ensures
        r == is_allowed_audio(codec),
{
    match codec {
        StreamCodec::Opus => true,
        _ => false,
    }
}

/// The position as the specification counts it.
pub open spec fn position(p: Option<usize>) -> Option<nat> {
    match p {
        Some(i) => Some(i as nat),
        None => None,
    }
}

/// Chooses the streams to play: the first video stream and the first audio stream
/// in container order; a first video (audio) stream whose codec cannot be sent
/// refuses the container, and so does a container with neither.
pub fn select_streams(streams: &[StreamProbe]) -> (r: Result<StreamSelection, DemuxError>)
    ensures
        match spec_select_streams(streams@) {
            Ok((v, a)) => r matches Ok(sel) && position(sel.video) == v && position(sel.audio) == a,
            Err(DemuxError::UnsupportedVideoCodec(c)) => r matches Err(DemuxError::UnsupportedVideoCodec(c2)) && c2 == c,
            Err(DemuxError::UnsupportedAudioCodec(c)) => r matches Err(DemuxError::UnsupportedAudioCodec(c2)) && c2 == c,
            Err(DemuxError::NoStreams) => r matches Err(DemuxError::NoStreams),
            Err(DemuxError::Ffmpeg(_)) => false,
        },
{
    let mut video: Option<usize> = None;
    let mut audio: Option<usize> = None;
    let mut i: usize = 0;
    while i < streams.len()
        invariant
            i <= streams@.len(),
            select_prefix(streams@, i as nat) == Ok::<(Option<nat>, Option<nat>), DemuxError>((position(video), position(audio))),
        decreases streams@.len() - i,
    {
        let s = streams[i];
        if s.medium == StreamMedium::Video && video.is_none() {
            if !is_allowed_video_codec(s.codec) {
                proof {
                    lemma_select_stays_refused(streams@, (i + 1) as nat, streams@.len());
                }
                return Err(DemuxError::UnsupportedVideoCodec(s.codec));
            }
            video = Some(i);
        } else if s.medium == StreamMedium::Audio && audio.is_none() {
            if !is_allowed_audio_codec(s.codec) {
                proof {
                    lemma_select_stays_refused(streams@, (i + 1) as nat, streams@.len());
                }
                return Err(DemuxError::UnsupportedAudioCodec(s.codec));
            }
            audio = Some(i);
        }
        i = i + 1;
    }
    if video.is_none() && audio.is_none() {
        return Err(DemuxError::NoStreams);
    }
    Ok(StreamSelection { video, audio })
}

/// Once a prefix refuses the container, every longer prefix refuses it the same way.
proof fn lemma_select_stays_refused(streams: Seq<StreamProbe>, n: nat, m: nat)
    requires
        n <= m,
        select_prefix(streams, n) is Err,
    ensures
        select_prefix(streams, m) == select_prefix(streams, n),
    decreases m - n,
{
    if n < m {
        lemma_select_stays_refused(streams, n, (m - 1) as nat);
    }
}

proof fn lemma_select_prefix_first(streams: Seq<StreamProbe>, n: nat)
    requires
        n <= streams.len(),
        select_prefix(streams, n) is Ok,
    ensures
        ({
            let (v, a) = select_prefix(streams, n)->Ok_0;
            &&& match v {
                Some(i) => i < n && streams[i as int].medium == StreamMedium::Video && is_allowed_video(streams[i as int].codec)
                    && forall|j: int| 0 <= j < i ==> streams[j].medium != StreamMedium::Video,
                None => forall|j: int| 0 <= j < n ==> streams[j].medium != StreamMedium::Video,
            }
            &&& match a {
                Some(i) => i < n && streams[i as int].medium == StreamMedium::Audio && is_allowed_audio(streams[i as int].codec)
                    && forall|j: int| 0 <= j < i ==> streams[j].medium != StreamMedium::Audio,
                None => forall|j: int| 0 <= j < n ==> streams[j].medium != StreamMedium::Audio,
            }
        }),
    decreases n,
{
    if n > 0 {
        lemma_select_prefix_first(streams, (n - 1) as nat);
    }
}

/// The streams chosen to play are the first video stream and the first audio
/// stream of the container, each in a codec that can be sent; when a kind is not
/// chosen, the container has no stream of it.
pub proof fn lemma_selected_streams_are_first(streams: Seq<StreamProbe>)
    requires
        spec_select_streams(streams) is Ok,
    ensures
        ({
            let (v, a) = spec_select_streams(streams)->Ok_0;
            &&& v is Some || a is Some
            &&& match v {
                Some(i) => i < streams.len() && streams[i as int].medium == StreamMedium::Video
                    && is_allowed_video(streams[i as int].codec)
                    && forall|j: int| 0 <= j < i ==> streams[j].medium != StreamMedium::Video,
                None => forall|j: int| 0 <= j < streams.len() ==> streams[j].medium != StreamMedium::Video,
            }
            &&& match a {
                Some(i) => i < streams.len() && streams[i as int].medium == StreamMedium::Audio
                    && is_allowed_audio(streams[i as int].codec)
                    && forall|j: int| 0 <= j < i ==> streams[j].medium != StreamMedium::Audio,
                None => forall|j: int| 0 <= j < streams.len() ==> streams[j].medium != StreamMedium::Audio,
            }
        }),
{
    lemma_select_prefix_first(streams, streams.len());
}

/// Where a packet goes.
#[derive(Debug, Clone, Copy, PartialEq, Eq, Structural)]
pub enum PacketRoute {
    Video,
    Audio,
    Skip,
}

/// A packet of container stream `stream_index` goes to video if that is the chosen
/// video stream's index, else to audio if it is the chosen audio stream's index,
/// else nowhere.
pub fn route_packet(stream_index: usize, video_index: Option<usize>, audio_index: Option<usize>) -> (r: PacketRoute)
    ensures
        r == if video_index == Some(stream_index) {
            PacketRoute::Video
        } else if audio_index == Some(stream_index) {
            PacketRoute::Audio
        } else {
            PacketRoute::Skip
        },
{
    match video_index {
        Some(v) if v == stream_index => {
            return PacketRoute::Video;
        },
        _ => {},
    }
    match audio_index {
        Some(a) if a == stream_index => PacketRoute::Audio,
        _ => PacketRoute::Skip,
    }
}

/// The samples (at 48 kHz) of one Opus frame of TOC configuration `config`
/// (RFC 6716, section 3.1): SILK 10/20/40/60 ms, hybrid 10/20 ms, CELT 2.5/5/10/20 ms.
pub open spec fn opus_frame_samples(config: u8) -> int {
    if config < 12 {
        if config % 4 == 0 {
            480
        } else if config % 4 == 1 {
            960
        } else if config % 4 == 2 {
            1920
        } else {
            2880
        }
    } else if config < 16 {
        if config % 2 == 0 {
            480
        } else {
            960
        }
    } else {
        if config % 4 == 0 {
            120
        } else if config % 4 == 1 {
            240
        } else if config % 4 == 2 {
            480
        } else {
            960
        }
    }
}

/// The number of frames an Opus packet holds by its TOC byte (and, for code 3,
/// its frame count byte); a code 3 packet without that byte counts none.
pub open spec fn opus_frame_count(data: Seq<u8>) -> int
    recommends
        data.len() > 0,
{
    let c = data[0] % 4;
    if c == 0 {
        1
    } else if c == 1 || c == 2 {
        2
    } else if data.len() > 1 {
        (data[1] % 64) as int
    } else {
        0
    }
}

/// The duration of an Opus packet in 48 kHz samples; 0 for an empty packet.
pub open spec fn spec_opus_duration(data: Seq<u8>) -> int {
    if data.len() == 0 {
        0
    } else {
        opus_frame_samples(data[0] / 8) * opus_frame_count(data)
    }
}

fn opus_samples(config: u8) -> (r: i64)
    requires
        config < 32,
    ensures
        r == opus_frame_samples(config),
{
    if config < 12 {
        let k = config % 4;
        if k == 0 {
            480
        } else if k == 1 {
            960
        } else if k == 2 {
            1920
        } else {
            2880
        }
    } else if config < 16 {
        if config % 2 == 0 {
            480
        } else {
            960
        }
    } else {
        let k = config % 4;
        if k == 0 {
            120
        } else if k == 1 {
            240
        } else if k == 2 {
            480
        } else {
            960
        }
    }
}

/// The duration of an Opus packet in 48 kHz samples, read from its TOC byte; 0
/// for an empty packet.
pub fn parse_opus_duration(data: &[u8]) -> (r: i64)
    ensures
        r == spec_opus_duration(data@),
{
    if data.len() == 0 {
        return 0;
    }
    let toc = data[0];
    proof {
        lemma_bit_facts();
        assert(toc >> 3u8 == toc / 8);
        assert(toc & 3u8 == toc % 4);
    }
    let frame_size = opus_samples(toc >> 3);
    let c = toc & 3;
    let frame_count: i64 = if c == 0 {
        1
    } else if c == 1 || c == 2 {
        2
    } else if data.len() > 1 {
        let b = data[1];
        proof {
            lemma_bit_facts();
            assert(b & 63u8 == b % 64);
        }
        (b & 63) as i64
    } else {
        0
    };
    proof {
        assert(0 <= frame_count <= 63);
        assert(0 <= frame_size <= 2880);
        assert(frame_size * frame_count <= 2880 * 63) by (nonlinear_arith)
            requires
                0 <= frame_count <= 63,
                0 <= frame_size <= 2880,
        ;
    }
    frame_size * frame_count
}

/// The duration an audio packet is sent with: its own, or, where the container
/// gives 0, the one its Opus TOC byte says.
pub fn audio_packet_duration(duration: i64, data: &[u8]) -> (r: i64)
    ensures
        r == if duration == 0 {
            spec_opus_duration(data@)
        } else {
            duration as int
        },
{
    if duration == 0 {
        parse_opus_duration(data)
    } else {
        duration
    }
}

} // verus!

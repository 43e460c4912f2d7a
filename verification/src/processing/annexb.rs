//! Annex-B NAL unit helpers: H264 / H265 NAL unit types, per-codec header
//! helpers, and splitting an Annex-B stream into NAL units.
use vstd::prelude::*;

verus! {

/// H264 NAL unit types.
#[derive(Debug, Clone, Copy, PartialEq, Eq, Structural)]
pub enum H264NalUnitType {
    Unspecified,
    CodedSliceNonIdr,
    CodedSlicePartitionA,
    CodedSlicePartitionB,
    CodedSlicePartitionC,
    CodedSliceIdr,
    Sei,
    Sps,
    Pps,
    AccessUnitDelimiter,
    EndOfSequence,
    EndOfStream,
    FillerData,
    SeiExtension,
    PrefixNalUnit,
    SubsetSps,
}

impl H264NalUnitType {
    /// The type number of each H264 NAL unit type.
    pub open spec fn value(self) -> u8 {
        match self {
            H264NalUnitType::Unspecified => 0,
            H264NalUnitType::CodedSliceNonIdr => 1,
            H264NalUnitType::CodedSlicePartitionA => 2,
            H264NalUnitType::CodedSlicePartitionB => 3,
            H264NalUnitType::CodedSlicePartitionC => 4,
            H264NalUnitType::CodedSliceIdr => 5,
            H264NalUnitType::Sei => 6,
            H264NalUnitType::Sps => 7,
            H264NalUnitType::Pps => 8,
            H264NalUnitType::AccessUnitDelimiter => 9,
            H264NalUnitType::EndOfSequence => 10,
            H264NalUnitType::EndOfStream => 11,
            H264NalUnitType::FillerData => 12,
            H264NalUnitType::SeiExtension => 13,
            H264NalUnitType::PrefixNalUnit => 14,
            H264NalUnitType::SubsetSps => 15,
        }
    }

    /// The type number of this NAL unit type.
    pub fn as_u8(self) -> (r: u8)
        ensures
            r == self.value(),
    {
        match self {
            H264NalUnitType::Unspecified => 0,
            H264NalUnitType::CodedSliceNonIdr => 1,
            H264NalUnitType::CodedSlicePartitionA => 2,
            H264NalUnitType::CodedSlicePartitionB => 3,
            H264NalUnitType::CodedSlicePartitionC => 4,
            H264NalUnitType::CodedSliceIdr => 5,
            H264NalUnitType::Sei => 6,
            H264NalUnitType::Sps => 7,
            H264NalUnitType::Pps => 8,
            H264NalUnitType::AccessUnitDelimiter => 9,
            H264NalUnitType::EndOfSequence => 10,
            H264NalUnitType::EndOfStream => 11,
            H264NalUnitType::FillerData => 12,
            H264NalUnitType::SeiExtension => 13,
            H264NalUnitType::PrefixNalUnit => 14,
            H264NalUnitType::SubsetSps => 15,
        }
    }

    /// The NAL unit type with type number `v`, if there is one (0 to 15).
    pub fn from_u8(v: u8) -> (r: Option<Self>)
        ensures
            r is Some <==> v < 16,
            r matches Some(t) ==> t.value() == v,
    {
        match v {
            0 => Some(Self::Unspecified),
            1 => Some(Self::CodedSliceNonIdr),
            2 => Some(Self::CodedSlicePartitionA),
            3 => Some(Self::CodedSlicePartitionB),
            4 => Some(Self::CodedSlicePartitionC),
            5 => Some(Self::CodedSliceIdr),
            6 => Some(Self::Sei),
            7 => Some(Self::Sps),
            8 => Some(Self::Pps),
            9 => Some(Self::AccessUnitDelimiter),
            10 => Some(Self::EndOfSequence),
            11 => Some(Self::EndOfStream),
            12 => Some(Self::FillerData),
            13 => Some(Self::SeiExtension),
            14 => Some(Self::PrefixNalUnit),
            15 => Some(Self::SubsetSps),
            _ => None,
        }
    }
}

/// Converting an H264 NAL unit type to its number and back gives the same type.
pub proof fn lemma_h264_nal_unit_type_roundtrip(t: H264NalUnitType)
    ensures
        t.value() < 16,
        forall|u: H264NalUnitType| u.value() == t.value() ==> u == t,
{
}

/// H265 NAL unit types.
#[allow(non_camel_case_types)]
#[derive(Debug, Clone, Copy, PartialEq, Eq, Structural)]
pub enum H265NalUnitType {
    TRAIL_N,
    TRAIL_R,
    TSA_N,
    TSA_R,
    STSA_N,
    STSA_R,
    RADL_N,
    RADL_R,
    RASL_N,
    RASL_R,
    RSV_VCL_N10,
    RSV_VCL_R11,
    RSV_VCL_N12,
    RSV_VCL_R13,
    RSV_VCL_N14,
    RSV_VCL_R15,
    BLA_W_LP,
    BLA_W_RADL,
    BLA_N_LP,
    IDR_W_RADL,
    IDR_N_LP,
    CRA_NUT,
    RSV_IRAP_VCL22,
    RSV_IRAP_VCL23,
    RSV_VCL24,
    RSV_VCL25,
    RSV_VCL26,
    RSV_VCL27,
    RSV_VCL28,
    RSV_VCL29,
    RSV_VCL30,
    RSV_VCL31,
    VPS_NUT,
    SPS_NUT,
    PPS_NUT,
    AUD_NUT,
    EOS_NUT,
    EOB_NUT,
    FD_NUT,
    PREFIX_SEI_NUT,
    SUFFIX_SEI_NUT,
    RSV_NVCL41,
    RSV_NVCL42,
    RSV_NVCL43,
    RSV_NVCL44,
    RSV_NVCL45,
    RSV_NVCL46,
    RSV_NVCL47,
}

impl H265NalUnitType {
    /// The type number of each H265 NAL unit type.
    pub open spec fn value(self) -> u8 {
        match self {
            H265NalUnitType::TRAIL_N => 0,
            H265NalUnitType::TRAIL_R => 1,
            H265NalUnitType::TSA_N => 2,
            H265NalUnitType::TSA_R => 3,
            H265NalUnitType::STSA_N => 4,
            H265NalUnitType::STSA_R => 5,
            H265NalUnitType::RADL_N => 6,
            H265NalUnitType::RADL_R => 7,
            H265NalUnitType::RASL_N => 8,
            H265NalUnitType::RASL_R => 9,
            H265NalUnitType::RSV_VCL_N10 => 10,
            H265NalUnitType::RSV_VCL_R11 => 11,
            H265NalUnitType::RSV_VCL_N12 => 12,
            H265NalUnitType::RSV_VCL_R13 => 13,
            H265NalUnitType::RSV_VCL_N14 => 14,
            H265NalUnitType::RSV_VCL_R15 => 15,
            H265NalUnitType::BLA_W_LP => 16,
            H265NalUnitType::BLA_W_RADL => 17,
            H265NalUnitType::BLA_N_LP => 18,
            H265NalUnitType::IDR_W_RADL => 19,
            H265NalUnitType::IDR_N_LP => 20,
            H265NalUnitType::CRA_NUT => 21,
            H265NalUnitType::RSV_IRAP_VCL22 => 22,
            H265NalUnitType::RSV_IRAP_VCL23 => 23,
            H265NalUnitType::RSV_VCL24 => 24,
            H265NalUnitType::RSV_VCL25 => 25,
            H265NalUnitType::RSV_VCL26 => 26,
            H265NalUnitType::RSV_VCL27 => 27,
            H265NalUnitType::RSV_VCL28 => 28,
            H265NalUnitType::RSV_VCL29 => 29,
            H265NalUnitType::RSV_VCL30 => 30,
            H265NalUnitType::RSV_VCL31 => 31,
            H265NalUnitType::VPS_NUT => 32,
            H265NalUnitType::SPS_NUT => 33,
            H265NalUnitType::PPS_NUT => 34,
            H265NalUnitType::AUD_NUT => 35,
            H265NalUnitType::EOS_NUT => 36,
            H265NalUnitType::EOB_NUT => 37,
            H265NalUnitType::FD_NUT => 38,
            H265NalUnitType::PREFIX_SEI_NUT => 39,
            H265NalUnitType::SUFFIX_SEI_NUT => 40,
            H265NalUnitType::RSV_NVCL41 => 41,
            H265NalUnitType::RSV_NVCL42 => 42,
            H265NalUnitType::RSV_NVCL43 => 43,
            H265NalUnitType::RSV_NVCL44 => 44,
            H265NalUnitType::RSV_NVCL45 => 45,
            H265NalUnitType::RSV_NVCL46 => 46,
            H265NalUnitType::RSV_NVCL47 => 47,
        }
    }

    /// The type number of this NAL unit type.
    pub fn as_u8(self) -> (r: u8)
        ensures
            r == self.value(),
    {
        match self {
            H265NalUnitType::TRAIL_N => 0,
            H265NalUnitType::TRAIL_R => 1,
            H265NalUnitType::TSA_N => 2,
            H265NalUnitType::TSA_R => 3,
            H265NalUnitType::STSA_N => 4,
            H265NalUnitType::STSA_R => 5,
            H265NalUnitType::RADL_N => 6,
            H265NalUnitType::RADL_R => 7,
            H265NalUnitType::RASL_N => 8,
            H265NalUnitType::RASL_R => 9,
            H265NalUnitType::RSV_VCL_N10 => 10,
            H265NalUnitType::RSV_VCL_R11 => 11,
            H265NalUnitType::RSV_VCL_N12 => 12,
            H265NalUnitType::RSV_VCL_R13 => 13,
            H265NalUnitType::RSV_VCL_N14 => 14,
            H265NalUnitType::RSV_VCL_R15 => 15,
            H265NalUnitType::BLA_W_LP => 16,
            H265NalUnitType::BLA_W_RADL => 17,
            H265NalUnitType::BLA_N_LP => 18,
            H265NalUnitType::IDR_W_RADL => 19,
            H265NalUnitType::IDR_N_LP => 20,
            H265NalUnitType::CRA_NUT => 21,
            H265NalUnitType::RSV_IRAP_VCL22 => 22,
            H265NalUnitType::RSV_IRAP_VCL23 => 23,
            H265NalUnitType::RSV_VCL24 => 24,
            H265NalUnitType::RSV_VCL25 => 25,
            H265NalUnitType::RSV_VCL26 => 26,
            H265NalUnitType::RSV_VCL27 => 27,
            H265NalUnitType::RSV_VCL28 => 28,
            H265NalUnitType::RSV_VCL29 => 29,
            H265NalUnitType::RSV_VCL30 => 30,
            H265NalUnitType::RSV_VCL31 => 31,
            H265NalUnitType::VPS_NUT => 32,
            H265NalUnitType::SPS_NUT => 33,
            H265NalUnitType::PPS_NUT => 34,
            H265NalUnitType::AUD_NUT => 35,
            H265NalUnitType::EOS_NUT => 36,
            H265NalUnitType::EOB_NUT => 37,
            H265NalUnitType::FD_NUT => 38,
            H265NalUnitType::PREFIX_SEI_NUT => 39,
            H265NalUnitType::SUFFIX_SEI_NUT => 40,
            H265NalUnitType::RSV_NVCL41 => 41,
            H265NalUnitType::RSV_NVCL42 => 42,
            H265NalUnitType::RSV_NVCL43 => 43,
            H265NalUnitType::RSV_NVCL44 => 44,
            H265NalUnitType::RSV_NVCL45 => 45,
            H265NalUnitType::RSV_NVCL46 => 46,
            H265NalUnitType::RSV_NVCL47 => 47,
        }
    }

    /// The NAL unit type with type number `v`, if there is one (0 to 47).
    pub fn from_u8(v: u8) -> (r: Option<Self>)
        ensures
            r is Some <==> v <= 47,
            r matches Some(t) ==> t.value() == v,
    {
        match v {
            0 => Some(Self::TRAIL_N),
            1 => Some(Self::TRAIL_R),
            2 => Some(Self::TSA_N),
            3 => Some(Self::TSA_R),
            4 => Some(Self::STSA_N),
            5 => Some(Self::STSA_R),
            6 => Some(Self::RADL_N),
            7 => Some(Self::RADL_R),
            8 => Some(Self::RASL_N),
            9 => Some(Self::RASL_R),
            10 => Some(Self::RSV_VCL_N10),
            11 => Some(Self::RSV_VCL_R11),
            12 => Some(Self::RSV_VCL_N12),
            13 => Some(Self::RSV_VCL_R13),
            14 => Some(Self::RSV_VCL_N14),
            15 => Some(Self::RSV_VCL_R15),
            16 => Some(Self::BLA_W_LP),
            17 => Some(Self::BLA_W_RADL),
            18 => Some(Self::BLA_N_LP),
            19 => Some(Self::IDR_W_RADL),
            20 => Some(Self::IDR_N_LP),
            21 => Some(Self::CRA_NUT),
            22 => Some(Self::RSV_IRAP_VCL22),
            23 => Some(Self::RSV_IRAP_VCL23),
            24 => Some(Self::RSV_VCL24),
            25 => Some(Self::RSV_VCL25),
            26 => Some(Self::RSV_VCL26),
            27 => Some(Self::RSV_VCL27),
            28 => Some(Self::RSV_VCL28),
            29 => Some(Self::RSV_VCL29),
            30 => Some(Self::RSV_VCL30),
            31 => Some(Self::RSV_VCL31),
            32 => Some(Self::VPS_NUT),
            33 => Some(Self::SPS_NUT),
            34 => Some(Self::PPS_NUT),
            35 => Some(Self::AUD_NUT),
            36 => Some(Self::EOS_NUT),
            37 => Some(Self::EOB_NUT),
            38 => Some(Self::FD_NUT),
            39 => Some(Self::PREFIX_SEI_NUT),
            40 => Some(Self::SUFFIX_SEI_NUT),
            41 => Some(Self::RSV_NVCL41),
            42 => Some(Self::RSV_NVCL42),
            43 => Some(Self::RSV_NVCL43),
            44 => Some(Self::RSV_NVCL44),
            45 => Some(Self::RSV_NVCL45),
            46 => Some(Self::RSV_NVCL46),
            47 => Some(Self::RSV_NVCL47),
            _ => None,
        }
    }
}

/// Converting an H265 NAL unit type to its number and back gives the same type.
pub proof fn lemma_h265_nal_unit_type_roundtrip(t: H265NalUnitType)
    ensures
        t.value() <= 47,
        forall|u: H265NalUnitType| u.value() == t.value() ==> u == t,
{
}

/// What each codec's NAL unit header looks like.
pub trait AnnexBHelpers {
    /// The length of the NAL unit header in bytes.
    spec fn header_len() -> nat;

    /// The NAL unit type held in the first header byte.
    spec fn unit_type_of(first: u8) -> u8;

    /// The NAL unit type of an access unit delimiter.
    spec fn aud_type() -> u8;

    /// The NAL unit type of a NAL unit.
    fn nal_unit_type(frame: &[u8]) -> (r: u8)
        requires
            frame@.len() >= 1,
        ensures
            r == Self::unit_type_of(frame@[0]),
    ;

    /// Splits a NAL unit into its header and its payload.
    fn split_header(frame: &[u8]) -> (r: (&[u8], &[u8]))
        requires
            frame@.len() >= Self::header_len(),
        ensures
            r.0@ == frame@.subrange(0, Self::header_len() as int),
            r.1@ == frame@.subrange(Self::header_len() as int, frame@.len() as int),
    ;

    /// Whether a NAL unit type is the access unit delimiter.
    fn is_aud(unit_type: u8) -> (r: bool)
        ensures
            r == (unit_type == Self::aud_type()),
    ;
}

/// H264: a one-byte header, type in its low five bits.
pub struct H264Helpers;

impl AnnexBHelpers for H264Helpers {
    open spec fn header_len() -> nat {
        1
    }

    open spec fn unit_type_of(first: u8) -> u8 {
        first & 0x1F
    }

    open spec fn aud_type() -> u8 {
        9
    }

    fn nal_unit_type(frame: &[u8]) -> (r: u8) {
        frame[0] & 0x1F
    }

    fn split_header(frame: &[u8]) -> (r: (&[u8], &[u8])) {
        frame.split_at(1)
    }

    fn is_aud(unit_type: u8) -> (r: bool) {
        unit_type == H264NalUnitType::AccessUnitDelimiter.as_u8()
    }
}

/// H265: a two-byte header, type in bits 1 to 6 of the first byte.
pub struct H265Helpers;

impl AnnexBHelpers for H265Helpers {
    open spec fn header_len() -> nat {
        2
    }

    open spec fn unit_type_of(first: u8) -> u8 {
        (first >> 1u8) & 0x3F
    }

    open spec fn aud_type() -> u8 {
        35
    }

    fn nal_unit_type(frame: &[u8]) -> (r: u8) {
        (frame[0] >> 1) & 0x3F
    }

    fn split_header(frame: &[u8]) -> (r: (&[u8], &[u8])) {
        frame.split_at(2)
    }

    fn is_aud(unit_type: u8) -> (r: bool) {
        unit_type == H265NalUnitType::AUD_NUT.as_u8()
    }
}

/// The 3-byte start code of Annex-B streams.
pub const START_CODE_3: [u8; 3] = [0, 0, 1];

/// Whether a start code `00 00 01` begins at byte `i` of `b`.
pub open spec fn start_code_at(b: Seq<u8>, i: int) -> bool {
    0 <= i && i + 2 < b.len() && b[i] == 0 && b[i + 1] == 0 && b[i + 2] == 1
}

/// The first start code at or after byte `i`.
pub open spec fn find_start_from(b: Seq<u8>, i: int) -> Option<int>
    decreases b.len() - i,
{
    if i < 0 || i + 2 >= b.len() {
        None
    } else if start_code_at(b, i) {
        Some(i)
    } else {
        find_start_from(b, i + 1)
    }
}

/// The NAL units of an Annex-B buffer: the non-empty pieces between start codes,
/// where a zero byte just before a start code belongs to a 4-byte start code.
pub open spec fn split_nalus(b: Seq<u8>) -> Seq<Seq<u8>>
    decreases b.len(),
{
    if b.len() == 0 {
        Seq::empty()
    } else {
        match find_start_from(b, 0) {
            Some(p) => if 0 <= p && p + 3 <= b.len() {
                let end = if p > 0 && b[p - 1] == 0 {
                    p - 1
                } else {
                    p
                };
                let nalu = b.subrange(0, end);
                let rest = split_nalus(b.subrange(p + 3, b.len() as int));
                if nalu.len() == 0 {
                    rest
                } else {
                    seq![nalu] + rest
                }
            } else {
                Seq::empty()
            },
            None => seq![b],
        }
    }
}

/// The contents of a list of byte slices.
pub open spec fn slices_view(v: Seq<&[u8]>) -> Seq<Seq<u8>> {
    v.map_values(|x: &[u8]| x@)
}

/// Where `find_start_from` finds a start code, there is one, and none before it.
pub proof fn lemma_find_start_from(b: Seq<u8>, i: int)
    requires
        i >= 0,
    ensures
        find_start_from(b, i) matches Some(p) ==> i <= p && start_code_at(b, p) && forall|
            j: int,
        | i <= j < p ==> !start_code_at(b, j),
        find_start_from(b, i) is None ==> forall|j: int| i <= j ==> !start_code_at(b, j),
    decreases b.len() - i,
{
    if !(i < 0 || i + 2 >= b.len()) && !start_code_at(b, i) {
        lemma_find_start_from(b, i + 1);
    }
}

/// The position of the first start code `00 00 01` in `buf`.
fn find_start_code(buf: &[u8]) -> (r: Option<usize>)
    ensures
        r matches Some(p) ==> find_start_from(buf@, 0) == Some(p as int),
        r is None ==> find_start_from(buf@, 0) is None,
{
    let n: usize = if buf.len() >= 2 { buf.len() - 2 } else { 0 };
    let mut i: usize = 0;
    while i < n
        invariant
            n == (if buf@.len() >= 2 { buf@.len() - 2 } else { 0 }),
            i <= n,
            find_start_from(buf@, 0) == find_start_from(buf@, i as int),
        decreases n - i,
    {
        if buf[i] == 0 && buf[i + 1] == 0 && buf[i + 2] == 1 {
            return Some(i);
        }
        i = i + 1;
    }
    None
}

/// Splits an Annex-B buffer into its NAL units (3- and 4-byte start codes).
pub fn split_nalu(buf: &[u8]) -> (r: Vec<&[u8]>)
    ensures
        slices_view(r@) == split_nalus(buf@),
{
    let mut nalus: Vec<&[u8]> = Vec::new();
    let mut remaining: &[u8] = buf;
    while remaining.len() > 0
        invariant
            split_nalus(buf@) == slices_view(nalus@) + split_nalus(remaining@),
        decreases remaining@.len(),
    {
        let pos = find_start_code(remaining);
        match pos {
            None => {
                nalus.push(remaining);
                proof {
                    assert(slices_view(nalus@) =~= slices_view(nalus@.drop_last()) + seq![
                        remaining@,
                    ]);
                    assert(split_nalus(remaining@) == seq![remaining@]);
                    assert(split_nalus(buf@) =~= slices_view(nalus@) + split_nalus(
                        Seq::<u8>::empty(),
                    ));
                }
                remaining = &remaining[0..0];
                proof {
                    assert(remaining@ =~= Seq::<u8>::empty());
                }
            },
            Some(p) => {
                proof {
                    lemma_find_start_from(remaining@, 0);
                }
                let ghost old_nalus = nalus@;
                let ghost rem = remaining@;
                let end = if p > 0 && remaining[p - 1] == 0 {
                    p - 1
                } else {
                    p
                };
                let nalu = &remaining[0..end];
                if nalu.len() > 0 {
                    nalus.push(nalu);
                }
                remaining = &remaining[p + 3..remaining.len()];
                proof {
                    let rest = split_nalus(remaining@);
                    if nalu@.len() > 0 {
                        assert(slices_view(nalus@) =~= slices_view(old_nalus) + seq![nalu@]);
                        assert(split_nalus(rem) == seq![nalu@] + rest);
                        assert(split_nalus(buf@) =~= slices_view(nalus@) + rest);
                    } else {
                        assert(split_nalus(rem) == rest);
                    }
                }
            },
        }
    }
    proof {
        assert(slices_view(nalus@) + split_nalus(remaining@) =~= slices_view(nalus@));
    }
    nalus
}

/// The 4-byte start code.
pub open spec fn start_code_4() -> Seq<u8> {
    seq![0u8, 0u8, 0u8, 1u8]
}

/// NAL units written as an Annex-B stream, each after a 4-byte start code.
pub open spec fn join_nalus(ns: Seq<Seq<u8>>) -> Seq<u8>
    decreases ns.len(),
{
    if ns.len() == 0 {
        Seq::empty()
    } else {
        start_code_4() + ns[0] + join_nalus(ns.drop_first())
    }
}

/// A NAL unit that survives being framed by start codes: non-empty, not ending in a
/// zero byte, and holding no start code itself.
pub open spec fn is_clean_nalu(n: Seq<u8>) -> bool {
    &&& n.len() > 0
    &&& n.last() != 0
    &&& forall|i: int| !start_code_at(n, i)
}

/// `find_start_from` skips positions without a start code.
proof fn lemma_find_start_prefix_free(b: Seq<u8>, i: int, p: int)
    requires
        0 <= i <= p,
        p + 2 < b.len(),
        start_code_at(b, p),
        forall|j: int| i <= j < p ==> !start_code_at(b, j),
    ensures
        find_start_from(b, i) == Some(p),
    decreases p - i,
{
    if i < p {
        lemma_find_start_prefix_free(b, i + 1, p);
    }
}

/// A 4-byte (`00 00 00 01`) start code when `long`, else a 3-byte (`00 00 01`) one.
pub open spec fn start_code_of(long: bool) -> Seq<u8> {
    if long {
        start_code_4()
    } else {
        seq![0u8, 0u8, 1u8]
    }
}

/// NAL units written as an Annex-B stream, the `k`-th after a 4-byte start code
/// where `long[k]`, else after a 3-byte one.
pub open spec fn join_nalus_with(ns: Seq<Seq<u8>>, long: Seq<bool>) -> Seq<u8>
    decreases ns.len(),
{
    if ns.len() == 0 {
        Seq::empty()
    } else {
        start_code_of(long[0]) + ns[0] + join_nalus_with(ns.drop_first(), long.drop_first())
    }
}

/// Splitting the first NAL unit followed by the others, each behind its start
/// code, gives them all back.
proof fn lemma_split_after_first(ns: Seq<Seq<u8>>, long: Seq<bool>)
    requires
        ns.len() > 0,
        long.len() == ns.len(),
        forall|k: int| 0 <= k < ns.len() ==> is_clean_nalu(#[trigger] ns[k]),
    ensures
        split_nalus(ns[0] + join_nalus_with(ns.drop_first(), long.drop_first())) == ns,
    decreases ns.len(),
{
    let n1 = ns[0];
    let rest = ns.drop_first();
    let lrest = long.drop_first();
    assert(is_clean_nalu(n1));
    if ns.len() == 1 {
        assert(rest =~= Seq::<Seq<u8>>::empty());
        assert(n1 + join_nalus_with(rest, lrest) =~= n1);
        lemma_find_start_from(n1, 0);
        assert(split_nalus(n1) == seq![n1]);
        assert(seq![n1] =~= ns);
    } else {
        let t = join_nalus_with(rest.drop_first(), lrest.drop_first());
        let n2 = rest[0];
        let sc = start_code_of(lrest[0]);
        let b = n1 + join_nalus_with(rest, lrest);
        assert(join_nalus_with(rest, lrest) == sc + n2 + t);
        let l = n1.len() as int;
        assert(b =~= n1 + (sc + n2 + t));
        let p = if lrest[0] { l + 1 } else { l };
        assert(b[l - 1] == n1[l - 1]);
        assert(b[l] == sc[0] && b[l + 1] == sc[1] && b[l + 2] == sc[2]);
        if lrest[0] {
            assert(b[l + 3] == sc[3]);
        }
        assert forall|j: int| 0 <= j < p implies !start_code_at(b, j) by {
            if j + 2 < l {
                assert(b[j] == n1[j] && b[j + 1] == n1[j + 1] && b[j + 2] == n1[j + 2]);
                assert(!start_code_at(n1, j));
            }
        }
        assert(start_code_at(b, p));
        lemma_find_start_prefix_free(b, 0, p);
        assert(find_start_from(b, 0) == Some(p));
        assert(b.subrange(0, l) =~= n1);
        assert(b.subrange(p + 3, b.len() as int) =~= n2 + t);
        assert(split_nalus(b) == seq![n1] + split_nalus(b.subrange(p + 3, b.len() as int)));
        assert forall|k: int| 0 <= k < rest.len() implies is_clean_nalu(#[trigger] rest[k]) by {
            assert(rest[k] == ns[k + 1]);
        }
        lemma_split_after_first(rest, lrest);
        assert(split_nalus(b) == seq![n1] + rest);
        assert(seq![n1] + rest =~= ns);
    }
}

/// Splitting a stream of clean NAL units, each behind a 3-byte or a 4-byte start
/// code, gives the NAL units back.
pub proof fn lemma_split_join_nalus_with(ns: Seq<Seq<u8>>, long: Seq<bool>)
    requires
        long.len() == ns.len(),
        forall|k: int| 0 <= k < ns.len() ==> is_clean_nalu(#[trigger] ns[k]),
    ensures
        split_nalus(join_nalus_with(ns, long)) == ns,
{
    if ns.len() == 0 {
        assert(join_nalus_with(ns, long) =~= Seq::<u8>::empty());
        assert(ns =~= Seq::<Seq<u8>>::empty());
    } else {
        let b = join_nalus_with(ns, long);
        let t = ns[0] + join_nalus_with(ns.drop_first(), long.drop_first());
        let sc = start_code_of(long[0]);
        assert(b =~= sc + t);
        let p: int = if long[0] { 1 } else { 0 };
        assert(b[0] == sc[0] && b[1] == sc[1] && b[2] == sc[2]);
        if long[0] {
            assert(b[3] == sc[3]);
            assert(!start_code_at(b, 0));
        }
        assert(start_code_at(b, p));
        lemma_find_start_prefix_free(b, 0, p);
        assert(b.subrange(0, 0) =~= Seq::<u8>::empty());
        assert(b.subrange(p + 3, b.len() as int) =~= t);
        lemma_split_after_first(ns, long);
    }
}

/// Writing NAL units behind 4-byte start codes is writing each behind a long one.
proof fn lemma_join_all_long(ns: Seq<Seq<u8>>)
    ensures
        join_nalus(ns) == join_nalus_with(ns, Seq::new(ns.len(), |i: int| true)),
    decreases ns.len(),
{
    if ns.len() > 0 {
        lemma_join_all_long(ns.drop_first());
        assert(Seq::new(ns.len(), |i: int| true).drop_first() =~= Seq::new(ns.drop_first().len(), |i: int| true));
    }
}

/// Splitting a stream of clean NAL units framed by 4-byte start codes gives the NAL
/// units back.
pub proof fn lemma_split_join_nalus(ns: Seq<Seq<u8>>)
    requires
        forall|k: int| 0 <= k < ns.len() ==> is_clean_nalu(#[trigger] ns[k]),
    ensures
        split_nalus(join_nalus(ns)) == ns,
{
    lemma_join_all_long(ns);
    lemma_split_join_nalus_with(ns, Seq::new(ns.len(), |i: int| true));
}

} // verus!

//! What rewriting an H264 SPS does, stated over the payload bits: the syntax is
//! copied field by field, the video signal type is dropped, and the bitstream
//! restriction always ends up present with `max_num_reorder_frames = 0` and
//! `max_dec_frame_buffering = max_num_ref_frames`.
use vstd::prelude::*;
use super::annexb_rw::{se_at, se_bits, se_writable, ue_at, ue_bits};
use super::bits::{bits_to_bytes, bits_to_u32, bytes_to_bits, pad_to_byte, u32_bits};
use super::escape::{escape, unescape};

verus! {

/// Reads `n` fixed bits at `p`: the value and the position after them.
pub open spec fn read_u(s: Seq<bool>, p: int, n: nat) -> Option<(u32, int)> {
    if 0 <= p && p + n <= s.len() {
        Some((bits_to_u32(s.subrange(p, p + n)), p + n))
    } else {
        None
    }
}

/// Copies `n` fixed bits: the value, the position after them and the bits written.
pub open spec fn copy_u(s: Seq<bool>, p: int, n: nat) -> Option<(u32, int, Seq<bool>)> {
    match read_u(s, p, n) {
        Some((v, q)) => Some((v, q, u32_bits(v, n))),
        None => None,
    }
}

/// Copies an unsigned Exp-Golomb code.
pub open spec fn copy_ue(s: Seq<bool>, p: int) -> Option<(u32, int, Seq<bool>)> {
    match ue_at(s, p) {
        Some((v, q)) => Some((v, q, ue_bits(v))),
        None => None,
    }
}

/// Copies a signed Exp-Golomb code, when its value can be written back.
pub open spec fn copy_se(s: Seq<bool>, p: int) -> Option<(int, int, Seq<bool>)> {
    match se_at(s, p) {
        Some((x, q)) => if se_writable(x) {
            Some((x, q, se_bits(x)))
        } else {
            None
        },
        None => None,
    }
}

/// Puts `a` in front of what a later step writes.
pub open spec fn join(a: Seq<bool>, r: Option<(int, Seq<bool>)>) -> Option<(int, Seq<bool>)> {
    match r {
        Some((p, o)) => Some((p, a + o)),
        None => None,
    }
}

/// Putting two pieces in front one after the other is putting them in front together.
pub proof fn lemma_join_join(a: Seq<bool>, b: Seq<bool>, r: Option<(int, Seq<bool>)>)
    ensures
        join(a, join(b, r)) == join(a + b, r),
{
    if let Some((p, o)) = r {
        assert(a + (b + o) =~= (a + b) + o);
    }
}

/// Putting nothing in front changes nothing.
pub proof fn lemma_join_empty(r: Option<(int, Seq<bool>)>)
    ensures
        join(Seq::empty(), r) == r,
{
    if let Some((p, o)) = r {
        assert(Seq::<bool>::empty() + o =~= o);
    }
}

/// Copies `n` signed Exp-Golomb codes in a row.
pub open spec fn copy_se_n(s: Seq<bool>, p: int, n: nat) -> Option<(int, Seq<bool>)>
    decreases n,
{
    if n == 0 {
        Some((p, Seq::empty()))
    } else {
        match copy_se(s, p) {
            Some((_x, p1, o1)) => join(o1, copy_se_n(s, p1, (n - 1) as nat)),
            None => None,
        }
    }
}

/// The profiles whose SPS carries chroma format and scaling data.
pub open spec fn is_high_profile(profile_idc: u32) -> bool {
    profile_idc == 100 || profile_idc == 110 || profile_idc == 122 || profile_idc == 244
        || profile_idc == 44 || profile_idc == 83 || profile_idc == 86 || profile_idc == 118
        || profile_idc == 128 || profile_idc == 138 || profile_idc == 144
}

/// Copies scaling lists `i..count`: each a presence flag, then 16 (the first six) or
/// 64 signed deltas when present.
pub open spec fn scaling_lists(s: Seq<bool>, p: int, i: nat, count: nat) -> Option<
    (int, Seq<bool>),
>
    decreases count - i,
{
    if i >= count {
        Some((p, Seq::empty()))
    } else {
        match copy_u(s, p, 1) {
            Some((flag, p1, o1)) => if flag != 0 {
                match copy_se_n(s, p1, if i < 6 { 16 } else { 64 }) {
                    Some((p2, o2)) => join(o1 + o2, scaling_lists(s, p2, i + 1, count)),
                    None => None,
                }
            } else {
                join(o1, scaling_lists(s, p1, i + 1, count))
            },
            None => None,
        }
    }
}

/// The high-profile part: chroma format, bit depths, scaling matrix.
#[verifier::opaque]
pub open spec fn sps_high(s: Seq<bool>, p: int, profile_idc: u32) -> Option<(int, Seq<bool>)> {
    if !is_high_profile(profile_idc) {
        Some((p, Seq::empty()))
    } else {
        match copy_ue(s, p) {
            Some((chroma, p1, o1)) => match (if chroma == 3 {
                copy_u(s, p1, 1)
            } else {
                Some((0u32, p1, Seq::empty()))
            }) {
                Some((_c, p2, o2)) => match copy_ue(s, p2) {
                    Some((_l, p3, o3)) => match copy_ue(s, p3) {
                        Some((_m, p4, o4)) => match copy_u(s, p4, 1) {
                            Some((_q, p5, o5)) => match copy_u(s, p5, 1) {
                                Some((flag, p6, o6)) => join(
                                    o1 + o2 + o3 + o4 + o5 + o6,
                                    if flag != 0 {
                                        scaling_lists(s, p6, 0, if chroma != 3 { 8 } else { 12 })
                                    } else {
                                        Some((p6, Seq::empty()))
                                    },
                                ),
                                None => None,
                            },
                            None => None,
                        },
                        None => None,
                    },
                    None => None,
                },
                None => None,
            },
            None => None,
        }
    }
}

/// The picture order count part.
#[verifier::opaque]
pub open spec fn sps_poc(s: Seq<bool>, p: int) -> Option<(int, Seq<bool>)> {
    match copy_ue(s, p) {
        Some((poc_type, p1, o1)) => join(
            o1,
            if poc_type == 0 {
                match copy_ue(s, p1) {
                    Some((_v, p2, o2)) => Some((p2, o2)),
                    None => None,
                }
            } else if poc_type == 1 {
                match copy_u(s, p1, 1) {
                    Some((_f, p2, o2)) => match copy_se(s, p2) {
                        Some((_a, p3, o3)) => match copy_se(s, p3) {
                            Some((_b, p4, o4)) => match copy_ue(s, p4) {
                                Some((n, p5, o5)) => join(
                                    o2 + o3 + o4 + o5,
                                    copy_se_n(s, p5, n as nat),
                                ),
                                None => None,
                            },
                            None => None,
                        },
                        None => None,
                    },
                    None => None,
                }
            } else {
                Some((p1, Seq::empty()))
            },
        ),
        None => None,
    }
}

/// From `log2_max_frame_num_minus4` up to the frame cropping fields; also gives
/// `max_num_ref_frames`.
#[verifier::opaque]
pub open spec fn sps_frame(s: Seq<bool>, p: int) -> Option<(int, Seq<bool>, u32)> {
    match copy_ue(s, p) {
        Some((_log2, p1, o1)) => match sps_poc(s, p1) {
            Some((p2, o2)) => match copy_ue(s, p2) {
                Some((max_ref, p3, o3)) => match copy_u(s, p3, 1) {
                    Some((_gaps, p4, o4)) => match copy_ue(s, p4) {
                        Some((_w, p5, o5)) => match copy_ue(s, p5) {
                            Some((_h, p6, o6)) => match copy_u(s, p6, 1) {
                                Some((frame_mbs_only, p7, o7)) => match (if frame_mbs_only == 0 {
                                    copy_u(s, p7, 1)
                                } else {
                                    Some((0u32, p7, Seq::empty()))
                                }) {
                                    Some((_a, p8, o8)) => match copy_u(s, p8, 1) {
                                        Some((_d, p9, o9)) => match sps_cropping(s, p9) {
                                            Some((p10, o10)) => Some(
                                                (
                                                    p10,
                                                    o1 + o2 + o3 + o4 + o5 + o6 + o7 + o8 + o9
                                                        + o10,
                                                    max_ref,
                                                ),
                                            ),
                                            None => None,
                                        },
                                        None => None,
                                    },
                                    None => None,
                                },
                                None => None,
                            },
                            None => None,
                        },
                        None => None,
                    },
                    None => None,
                },
                None => None,
            },
            None => None,
        },
        None => None,
    }
}

/// The frame cropping flag and, when set, the four crop offsets.
#[verifier::opaque]
pub open spec fn sps_cropping(s: Seq<bool>, p: int) -> Option<(int, Seq<bool>)> {
    match copy_u(s, p, 1) {
        Some((flag, p1, o1)) => if flag != 0 {
            match copy_ue(s, p1) {
                Some((_a, p2, o2)) => match copy_ue(s, p2) {
                    Some((_b, p3, o3)) => match copy_ue(s, p3) {
                        Some((_c, p4, o4)) => match copy_ue(s, p4) {
                            Some((_d, p5, o5)) => Some((p5, o1 + o2 + o3 + o4 + o5)),
                            None => None,
                        },
                        None => None,
                    },
                    None => None,
                },
                None => None,
            }
        } else {
            Some((p1, o1))
        },
        None => None,
    }
}

/// The bitstream restriction written when the input has none: the default fields,
/// no reordering, and `max_num_ref_frames` frames of buffering.
pub open spec fn default_restriction(max_num_ref_frames: u32) -> Seq<bool> {
    u32_bits(1, 1) + ue_bits(2) + ue_bits(1) + ue_bits(16) + ue_bits(16) + ue_bits(0) + ue_bits(
        max_num_ref_frames,
    )
}

/// `n` HRD entries: bit rate, buffer size, CBR flag.
pub open spec fn hrd_entries(s: Seq<bool>, p: int, n: nat) -> Option<(int, Seq<bool>)>
    decreases n,
{
    if n == 0 {
        Some((p, Seq::empty()))
    } else {
        match copy_ue(s, p) {
            Some((_r, p1, o1)) => match copy_ue(s, p1) {
                Some((_z, p2, o2)) => match copy_u(s, p2, 1) {
                    Some((_c, p3, o3)) => join(o1 + o2 + o3, hrd_entries(s, p3, (n - 1) as nat)),
                    None => None,
                },
                None => None,
            },
            None => None,
        }
    }
}

/// Four 5-bit fields, copied.
pub open spec fn copy_u5_n(s: Seq<bool>, p: int, n: nat) -> Option<(int, Seq<bool>)>
    decreases n,
{
    if n == 0 {
        Some((p, Seq::empty()))
    } else {
        match copy_u(s, p, 5) {
            Some((_v, p1, o1)) => join(o1, copy_u5_n(s, p1, (n - 1) as nat)),
            None => None,
        }
    }
}

/// An `hrd_parameters()` block, copied unchanged.
#[verifier::opaque]
pub open spec fn hrd_parameters(s: Seq<bool>, p: int) -> Option<(int, Seq<bool>)> {
    match copy_ue(s, p) {
        Some((cpb_cnt_minus1, p1, o1)) => match copy_u(s, p1, 4) {
            Some((_a, p2, o2)) => match copy_u(s, p2, 4) {
                Some((_b, p3, o3)) => match hrd_entries(s, p3, (cpb_cnt_minus1 + 1) as nat) {
                    Some((p4, o4)) => join(o1 + o2 + o3 + o4, copy_u5_n(s, p4, 4)),
                    None => None,
                },
                None => None,
            },
            None => None,
        },
        None => None,
    }
}

/// The VUI fields before the HRD blocks: aspect ratio, overscan, video signal type
/// (read and dropped), chroma location and timing.
#[verifier::opaque]
pub open spec fn vui_head(s: Seq<bool>, p: int) -> Option<(int, Seq<bool>)> {
    match copy_u(s, p, 1) {
        Some((aspect, p1, o1)) => match (if aspect != 0 {
            match copy_u(s, p1, 8) {
                Some((idc, q1, r1)) => if idc == 255 {
                    match copy_u(s, q1, 16) {
                        Some((_w, q2, r2)) => match copy_u(s, q2, 16) {
                            Some((_h, q3, r3)) => Some((q3, r1 + r2 + r3)),
                            None => None,
                        },
                        None => None,
                    }
                } else {
                    Some((q1, r1))
                },
                None => None,
            }
        } else {
            Some((p1, Seq::empty()))
        }) {
            Some((p2, o2)) => match copy_u(s, p2, 1) {
                Some((overscan, p3, o3)) => match (if overscan != 0 {
                    copy_u(s, p3, 1)
                } else {
                    Some((0u32, p3, Seq::empty()))
                }) {
                    Some((_a, p4, o4)) => match vui_signal_skip(s, p4) {
                        Some(p5) => match vui_chroma_timing(s, p5) {
                            Some((p6, o6)) => Some(
                                (p6, o1 + o2 + o3 + o4 + u32_bits(0, 1) + o6),
                            ),
                            None => None,
                        },
                        None => None,
                    },
                    None => None,
                },
                None => None,
            },
            None => None,
        },
        None => None,
    }
}

/// Reads past the video signal type without writing it: the position after it.
#[verifier::opaque]
pub open spec fn vui_signal_skip(s: Seq<bool>, p: int) -> Option<int> {
    match read_u(s, p, 1) {
        Some((present, p1)) => if present != 0 {
            match read_u(s, p1, 3) {
                Some((_f, p2)) => match read_u(s, p2, 1) {
                    Some((_r, p3)) => match read_u(s, p3, 1) {
                        Some((colour, p4)) => if colour != 0 {
                            match read_u(s, p4, 8) {
                                Some((_a, p5)) => match read_u(s, p5, 8) {
                                    Some((_b, p6)) => match read_u(s, p6, 8) {
                                        Some((_c, p7)) => Some(p7),
                                        None => None,
                                    },
                                    None => None,
                                },
                                None => None,
                            }
                        } else {
                            Some(p4)
                        },
                        None => None,
                    },
                    None => None,
                },
                None => None,
            }
        } else {
            Some(p1)
        },
        None => None,
    }
}

/// Chroma location and timing info, copied.
#[verifier::opaque]
pub open spec fn vui_chroma_timing(s: Seq<bool>, p: int) -> Option<(int, Seq<bool>)> {
    match copy_u(s, p, 1) {
        Some((chroma_loc, p1, o1)) => match (if chroma_loc != 0 {
            match copy_ue(s, p1) {
                Some((_t, q1, r1)) => match copy_ue(s, q1) {
                    Some((_b, q2, r2)) => Some((q2, r1 + r2)),
                    None => None,
                },
                None => None,
            }
        } else {
            Some((p1, Seq::empty()))
        }) {
            Some((p2, o2)) => match copy_u(s, p2, 1) {
                Some((timing, p3, o3)) => if timing != 0 {
                    match copy_u(s, p3, 32) {
                        Some((_n, q1, r1)) => match copy_u(s, q1, 32) {
                            Some((_t, q2, r2)) => match copy_u(s, q2, 1) {
                                Some((_f, q3, r3)) => Some((q3, o1 + o2 + o3 + r1 + r2 + r3)),
                                None => None,
                            },
                            None => None,
                        },
                        None => None,
                    }
                } else {
                    Some((p3, o1 + o2 + o3))
                },
                None => None,
            },
            None => None,
        },
        None => None,
    }
}

/// The HRD flags and blocks, low delay flag and picture structure flag.
#[verifier::opaque]
pub open spec fn vui_hrd(s: Seq<bool>, p: int) -> Option<(int, Seq<bool>)> {
    match copy_u(s, p, 1) {
        Some((nal, p1, o1)) => match (if nal != 0 {
            hrd_parameters(s, p1)
        } else {
            Some((p1, Seq::empty()))
        }) {
            Some((p2, o2)) => match copy_u(s, p2, 1) {
                Some((vcl, p3, o3)) => match (if vcl != 0 {
                    hrd_parameters(s, p3)
                } else {
                    Some((p3, Seq::empty()))
                }) {
                    Some((p4, o4)) => match (if nal != 0 || vcl != 0 {
                        copy_u(s, p4, 1)
                    } else {
                        Some((0u32, p4, Seq::empty()))
                    }) {
                        Some((_l, p5, o5)) => match copy_u(s, p5, 1) {
                            Some((_ps, p6, o6)) => Some((p6, o1 + o2 + o3 + o4 + o5 + o6)),
                            None => None,
                        },
                        None => None,
                    },
                    None => None,
                },
                None => None,
            },
            None => None,
        },
        None => None,
    }
}

/// The bitstream restriction, rewritten: copied when present except that reordering
/// becomes 0 and buffering `max_num_ref_frames`; the default block when absent.
#[verifier::opaque]
pub open spec fn vui_restriction(s: Seq<bool>, p: int, max_num_ref_frames: u32) -> Option<
    (int, Seq<bool>),
> {
    match read_u(s, p, 1) {
        Some((present, p1)) => join(
            u32_bits(1, 1),
            if present == 0 {
                Some((p1, default_restriction(max_num_ref_frames)))
            } else {
                match copy_u(s, p1, 1) {
                    Some((_m, p2, o2)) => match copy_ue(s, p2) {
                        Some((_a, p3, o3)) => match copy_ue(s, p3) {
                            Some((_b, p4, o4)) => match copy_ue(s, p4) {
                                Some((_c, p5, o5)) => match copy_ue(s, p5) {
                                    Some((_d, p6, o6)) => match ue_at(s, p6) {
                                        Some((_reorder, p7)) => match ue_at(s, p7) {
                                            Some((_buffering, p8)) => Some(
                                                (
                                                    p8,
                                                    o2 + o3 + o4 + o5 + o6 + ue_bits(0) + ue_bits(
                                                        max_num_ref_frames,
                                                    ),
                                                ),
                                            ),
                                            None => None,
                                        },
                                        None => None,
                                    },
                                    None => None,
                                },
                                None => None,
                            },
                            None => None,
                        },
                        None => None,
                    },
                    None => None,
                }
            },
        ),
        None => None,
    }
}

/// The VUI, always written as present.
#[verifier::opaque]
pub open spec fn sps_vui(s: Seq<bool>, p: int, max_num_ref_frames: u32) -> Option<
    (int, Seq<bool>),
> {
    match read_u(s, p, 1) {
        Some((present, p1)) => join(
            u32_bits(1, 1),
            if present == 0 {
                Some(
                    (
                        p1,
                        u32_bits(0, 2) + u32_bits(0, 1) + u32_bits(0, 5) + u32_bits(1, 1)
                            + default_restriction(max_num_ref_frames),
                    ),
                )
            } else {
                match vui_head(s, p1) {
                    Some((p2, o2)) => match vui_hrd(s, p2) {
                        Some((p3, o3)) => join(
                            o2 + o3,
                            vui_restriction(s, p3, max_num_ref_frames),
                        ),
                        None => None,
                    },
                    None => None,
                }
            },
        ),
        None => None,
    }
}

/// The rewritten SPS payload bits (after the NAL header byte, before the stop bit),
/// or `None` where the payload cannot be read through.
#[verifier::opaque]
pub open spec fn sps_rewrite_bits(s: Seq<bool>) -> Option<Seq<bool>> {
    match copy_u(s, 0, 8) {
        Some((profile_idc, p1, o1)) => match copy_u(s, p1, 8) {
            Some((_constraints, p2, o2)) => match copy_u(s, p2, 8) {
                Some((_level, p3, o3)) => match copy_ue(s, p3) {
                    Some((_id, p4, o4)) => match sps_high(s, p4, profile_idc) {
                        Some((p5, o5)) => match sps_frame(s, p5) {
                            Some((p6, o6, max_ref)) => match sps_vui(s, p6, max_ref) {
                                Some((_p7, o7)) => Some(o1 + o2 + o3 + o4 + o5 + o6 + o7),
                                None => None,
                            },
                            None => None,
                        },
                        None => None,
                    },
                    None => None,
                },
                None => None,
            },
            None => None,
        },
        None => None,
    }
}

/// The payload bits of an SPS NAL unit: the bytes after its header byte, unescaped.
pub open spec fn sps_payload_bits(nalu: Seq<u8>) -> Seq<bool> {
    bytes_to_bits(unescape(nalu.subrange(1, nalu.len() as int)))
}

/// The SPS NAL unit `rewrite_sps_vui` gives for `nalu`: the header byte, the rewritten
/// payload, the stop bit, zero padding, escaped.
pub open spec fn spec_rewrite_sps_vui(nalu: Seq<u8>) -> Option<Seq<u8>> {
    if nalu.len() == 0 {
        None
    } else {
        match sps_rewrite_bits(sps_payload_bits(nalu)) {
            Some(body) => Some(
                escape(
                    bits_to_bytes(
                        pad_to_byte(u32_bits(nalu[0] as u32, 8) + body + u32_bits(1, 1)),
                    ),
                ),
            ),
            None => None,
        }
    }
}

} // verus!

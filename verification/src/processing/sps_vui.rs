//! H264 SPS VUI rewriter: sets `max_num_reorder_frames = 0` (and
//! `max_dec_frame_buffering = max_num_ref_frames`) so that decoders output
//! frames without delay, as real-time streaming needs.
use vstd::prelude::*;
use super::annexb_rw::{
    se_at, se_bits, se_writable, ue_at, ue_bits, AnnexBBitstreamReader, AnnexBBitstreamWriter,
};
use super::bits::{bits_to_bytes, pad_to_byte, u32_bits, zeros};
use super::sps_spec::{
    copy_se, copy_se_n, copy_u, copy_ue, copy_u5_n, default_restriction, hrd_entries,
    hrd_parameters, is_high_profile, join, lemma_join_empty, lemma_join_join, read_u,
    scaling_lists, sps_cropping, sps_frame, sps_high, sps_payload_bits, sps_poc,
    sps_rewrite_bits, sps_vui, spec_rewrite_sps_vui, vui_chroma_timing, vui_hrd, vui_head,
    vui_restriction, vui_signal_skip,
};

verus! {

/// Whether a reader/writer pair moved as `spec` says: on `Some((p, o))` the reader is at
/// `p` and the writer wrote `o`; on `None` the step failed.
pub open spec fn moved_as(
    r0: AnnexBBitstreamReader,
    r1: AnnexBBitstreamReader,
    w0: AnnexBBitstreamWriter,
    w1: AnnexBBitstreamWriter,
    spec: Option<(int, Seq<bool>)>,
    ok: bool,
) -> bool {
    match spec {
        None => !ok,
        Some((p, o)) => ok && r1.pos() == p && w1.bits() == w0.bits() + o,
    }
}

/// Copies `n` fixed bits.
fn cp_u(r: &mut AnnexBBitstreamReader, w: &mut AnnexBBitstreamWriter, n: u32) -> (res: Option<
    u32,
>)
    requires
        old(r).wf(),
        old(w).wf(),
        n <= 32,
    ensures
        final(r).wf(),
        final(w).wf(),
        final(r).source() == old(r).source(),
        match copy_u(old(r).bits(), old(r).pos(), n as nat) {
            None => res is None,
            Some((v, p, o)) => res == Some(v) && final(r).pos() == p && final(w).bits() == old(
                w,
            ).bits() + o,
        },
{
    proof {
        r.lemma_pos_bound();
    }
    if !r.has_bits(n) {
        return None;
    }
    let v = r.read_bits(n);
    w.write_bits(v, n);
    Some(v)
}

/// Reads `n` fixed bits without copying them.
fn rd_u(r: &mut AnnexBBitstreamReader, n: u32) -> (res: Option<u32>)
    requires
        old(r).wf(),
    ensures
        final(r).wf(),
        final(r).source() == old(r).source(),
        match read_u(old(r).bits(), old(r).pos(), n as nat) {
            None => res is None,
            Some((v, p)) => res == Some(v) && final(r).pos() == p,
        },
{
    proof {
        r.lemma_pos_bound();
    }
    if !r.has_bits(n) {
        return None;
    }
    Some(r.read_bits(n))
}

/// Copies an unsigned Exp-Golomb code.
fn cp_ue(r: &mut AnnexBBitstreamReader, w: &mut AnnexBBitstreamWriter) -> (res: Option<u32>)
    requires
        old(r).wf(),
        old(w).wf(),
    ensures
        final(r).wf(),
        final(w).wf(),
        final(r).source() == old(r).source(),
        match copy_ue(old(r).bits(), old(r).pos()) {
            None => res is None,
            Some((v, p, o)) => res == Some(v) && final(r).pos() == p && final(w).bits() == old(
                w,
            ).bits() + o && v < 0xffff_ffff,
        },
{
    if !r.can_read_ue() {
        return None;
    }
    let v = r.read_ue();
    w.write_ue(v);
    Some(v)
}

/// Reads an unsigned Exp-Golomb code without copying it.
fn rd_ue(r: &mut AnnexBBitstreamReader) -> (res: Option<u32>)
    requires
        old(r).wf(),
    ensures
        final(r).wf(),
        final(r).source() == old(r).source(),
        match ue_at(old(r).bits(), old(r).pos()) {
            None => res is None,
            Some((v, p)) => res == Some(v) && final(r).pos() == p && v < 0xffff_ffff,
        },
{
    if !r.can_read_ue() {
        return None;
    }
    Some(r.read_ue())
}

/// Copies a signed Exp-Golomb code.
fn cp_se(r: &mut AnnexBBitstreamReader, w: &mut AnnexBBitstreamWriter) -> (res: Option<i32>)
    requires
        old(r).wf(),
        old(w).wf(),
    ensures
        final(r).wf(),
        final(w).wf(),
        final(r).source() == old(r).source(),
        match copy_se(old(r).bits(), old(r).pos()) {
            None => res is None,
            Some((x, p, o)) => res == Some(x as i32) && x == x as i32 && final(r).pos() == p
                && final(w).bits() == old(w).bits() + o,
        },
{
    if !r.can_read_ue() {
        return None;
    }
    let x = r.read_se();
    if !(-0x3fff_ffff <= x && x <= 0x3fff_ffff) {
        return None;
    }
    w.write_se(x);
    Some(x)
}

/// Copies `n` signed Exp-Golomb codes.
fn cp_se_n(r: &mut AnnexBBitstreamReader, w: &mut AnnexBBitstreamWriter, n: u32) -> (res:
    Option<()>)
    requires
        old(r).wf(),
        old(w).wf(),
    ensures
        final(r).wf(),
        final(w).wf(),
        final(r).source() == old(r).source(),
        moved_as(*old(r), *final(r), *old(w), *final(w), copy_se_n(old(r).bits(), old(r).pos(), n as nat), res is Some),
{
    let ghost s = old(r).bits();
    let ghost p0 = old(r).pos();
    let ghost b0 = old(w).bits();
    let ghost mut done: Seq<bool> = Seq::empty();
    let mut k: u32 = 0;
    proof {
        lemma_join_empty(copy_se_n(s, p0, n as nat));
        assert(b0 + done =~= b0);
    }
    while k < n
        invariant
            r.wf(),
            w.wf(),
            r.source() == old(r).source(),
            s == r.bits(),
            s == old(r).bits(),
            p0 == old(r).pos(),
            b0 == old(w).bits(),
            k <= n,
            w.bits() == b0 + done,
            copy_se_n(s, p0, n as nat) == join(done, copy_se_n(s, r.pos(), (n - k) as nat)),
        decreases n - k,
    {
        let ghost pos = r.pos();
        let ghost bits = w.bits();
        let x = cp_se(r, w);
        if x.is_none() {
            proof {
                assert(copy_se(s, pos) is None);
                assert(copy_se_n(s, pos, (n - k) as nat) is None);
            }
            return None;
        }
        proof {
            let o1 = copy_se(s, pos)->Some_0.2;
            lemma_join_join(done, o1, copy_se_n(s, r.pos(), (n - k - 1) as nat));
            done = done + o1;
            assert(w.bits() =~= b0 + done);
        }
        k = k + 1;
    }
    proof {
        assert(done + Seq::<bool>::empty() =~= done);
    }
    Some(())
}

/// Copies one scaling list of `size` deltas, tracking the scale the way the
/// syntax defines it.
fn cp_scaling_list(r: &mut AnnexBBitstreamReader, w: &mut AnnexBBitstreamWriter, size: u32) -> (res:
    Option<()>)
    requires
        old(r).wf(),
        old(w).wf(),
    ensures
        final(r).wf(),
        final(w).wf(),
        final(r).source() == old(r).source(),
        moved_as(*old(r), *final(r), *old(w), *final(w), copy_se_n(old(r).bits(), old(r).pos(), size as nat), res is Some),
{
    let ghost s = old(r).bits();
    let ghost p0 = old(r).pos();
    let ghost b0 = old(w).bits();
    let ghost mut done: Seq<bool> = Seq::empty();
    let mut last_scale: i32 = 8;
    let mut next_scale: i32 = 8;
    let mut k: u32 = 0;
    proof {
        lemma_join_empty(copy_se_n(s, p0, size as nat));
        assert(b0 + done =~= b0);
    }
    while k < size
        invariant
            r.wf(),
            w.wf(),
            r.source() == old(r).source(),
            s == r.bits(),
            s == old(r).bits(),
            p0 == old(r).pos(),
            b0 == old(w).bits(),
            k <= size,
            -256 < last_scale < 256,
            w.bits() == b0 + done,
            copy_se_n(s, p0, size as nat) == join(done, copy_se_n(s, r.pos(), (size - k) as nat)),
        decreases size - k,
    {
        let ghost pos = r.pos();
        let delta = match cp_se(r, w) {
            Some(d) => d,
            None => {
                proof {
                    assert(copy_se_n(s, pos, (size - k) as nat) is None);
                }
                return None;
            },
        };
        next_scale = (last_scale + delta + 256) % 256;
        if next_scale != 0 {
            last_scale = next_scale;
        }
        proof {
            let o1 = copy_se(s, pos)->Some_0.2;
            lemma_join_join(done, o1, copy_se_n(s, r.pos(), (size - k - 1) as nat));
            done = done + o1;
            assert(w.bits() =~= b0 + done);
        }
        k = k + 1;
    }
    proof {
        assert(done + Seq::<bool>::empty() =~= done);
    }
    Some(())
}

/// Copies scaling lists `0..count`.
fn cp_scaling_lists(r: &mut AnnexBBitstreamReader, w: &mut AnnexBBitstreamWriter, count: u32) -> (res:
    Option<()>)
    requires
        old(r).wf(),
        old(w).wf(),
    ensures
        final(r).wf(),
        final(w).wf(),
        final(r).source() == old(r).source(),
        moved_as(*old(r), *final(r), *old(w), *final(w), scaling_lists(old(r).bits(), old(r).pos(), 0, count as nat), res is Some),
{
    let ghost s = old(r).bits();
    let ghost p0 = old(r).pos();
    let ghost b0 = old(w).bits();
    let ghost mut done: Seq<bool> = Seq::empty();
    let mut i: u32 = 0;
    proof {
        lemma_join_empty(scaling_lists(s, p0, 0, count as nat));
        assert(b0 + done =~= b0);
    }
    while i < count
        invariant
            r.wf(),
            w.wf(),
            r.source() == old(r).source(),
            s == r.bits(),
            s == old(r).bits(),
            p0 == old(r).pos(),
            b0 == old(w).bits(),
            i <= count,
            w.bits() == b0 + done,
            scaling_lists(s, p0, 0, count as nat) == join(done, scaling_lists(s, r.pos(), i as nat, count as nat)),
        decreases count - i,
    {
        let ghost pos = r.pos();
        let flag = match cp_u(r, w, 1) {
            Some(f) => f,
            None => {
                proof {
                    assert(scaling_lists(s, pos, i as nat, count as nat) is None);
                }
                return None;
            },
        };
        let ghost o1 = copy_u(s, pos, 1)->Some_0.2;
        let ghost p1 = r.pos();
        if flag != 0 {
            let size: u32 = if i < 6 { 16 } else { 64 };
            if cp_scaling_list(r, w, size).is_none() {
                proof {
                    assert(scaling_lists(s, pos, i as nat, count as nat) is None);
                }
                return None;
            }
            proof {
                let o2 = copy_se_n(s, p1, size as nat)->Some_0.1;
                lemma_join_join(done, o1 + o2, scaling_lists(s, r.pos(), (i + 1) as nat, count as nat));
                done = done + (o1 + o2);
                assert(w.bits() =~= b0 + done);
            }
        } else {
            proof {
                lemma_join_join(done, o1, scaling_lists(s, r.pos(), (i + 1) as nat, count as nat));
                done = done + o1;
                assert(w.bits() =~= b0 + done);
            }
        }
        i = i + 1;
    }
    proof {
        assert(done + Seq::<bool>::empty() =~= done);
    }
    Some(())
}

/// Copies the high-profile part of the SPS.
fn cp_high(r: &mut AnnexBBitstreamReader, w: &mut AnnexBBitstreamWriter, profile_idc: u32) -> (res:
    Option<()>)
    requires
        old(r).wf(),
        old(w).wf(),
    ensures
        final(r).wf(),
        final(w).wf(),
        final(r).source() == old(r).source(),
        moved_as(*old(r), *final(r), *old(w), *final(w), sps_high(old(r).bits(), old(r).pos(), profile_idc), res is Some),
{
    proof {
        reveal(sps_high);
    }
    if !(profile_idc == 100 || profile_idc == 110 || profile_idc == 122 || profile_idc == 244
        || profile_idc == 44 || profile_idc == 83 || profile_idc == 86 || profile_idc == 118
        || profile_idc == 128 || profile_idc == 138 || profile_idc == 144) {
        proof {
            assert(w.bits() + Seq::<bool>::empty() =~= w.bits());
        }
        return Some(());
    }
    let ghost s = old(r).bits();
    let ghost b0 = old(w).bits();
    let chroma_format_idc = cp_ue(r, w)?;
    if chroma_format_idc == 3 {
        let _separate_colour_plane_flag = cp_u(r, w, 1)?;
    } else {
        proof {
            assert(w.bits() + Seq::<bool>::empty() =~= w.bits());
        }
    }
    let _bit_depth_luma_minus8 = cp_ue(r, w)?;
    let _bit_depth_chroma_minus8 = cp_ue(r, w)?;
    let _qpprime_y_zero_transform_bypass_flag = cp_u(r, w, 1)?;
    let seq_scaling_matrix_present_flag = cp_u(r, w, 1)?;
    let ghost mid = w.bits();
    if seq_scaling_matrix_present_flag != 0 {
        let scaling_count: u32 = if chroma_format_idc != 3 { 8 } else { 12 };
        cp_scaling_lists(r, w, scaling_count)?;
    } else {
        proof {
            assert(w.bits() + Seq::<bool>::empty() =~= w.bits());
        }
    }
    proof {
        let sp = sps_high(s, old(r).pos(), profile_idc);
        if sp is Some {
            assert(w.bits() =~= b0 + sp->Some_0.1);
        }
    }
    Some(())
}

/// Copies the picture order count part.
fn cp_poc(r: &mut AnnexBBitstreamReader, w: &mut AnnexBBitstreamWriter) -> (res: Option<()>)
    requires
        old(r).wf(),
        old(w).wf(),
    ensures
        final(r).wf(),
        final(w).wf(),
        final(r).source() == old(r).source(),
        moved_as(*old(r), *final(r), *old(w), *final(w), sps_poc(old(r).bits(), old(r).pos()), res is Some),
{
    proof {
        reveal(sps_poc);
    }
    let ghost s = old(r).bits();
    let ghost b0 = old(w).bits();
    let pic_order_cnt_type = cp_ue(r, w)?;
    if pic_order_cnt_type == 0 {
        let _log2_max_pic_order_cnt_lsb_minus4 = cp_ue(r, w)?;
    } else if pic_order_cnt_type == 1 {
        let _delta_pic_order_always_zero_flag = cp_u(r, w, 1)?;
        let _offset_for_non_ref_pic = cp_se(r, w)?;
        let _offset_for_top_to_bottom_field = cp_se(r, w)?;
        let num_ref_frames_in_pic_order_cnt_cycle = cp_ue(r, w)?;
        cp_se_n(r, w, num_ref_frames_in_pic_order_cnt_cycle)?;
    } else {
        proof {
            assert(w.bits() + Seq::<bool>::empty() =~= w.bits());
        }
    }
    proof {
        let sp = sps_poc(s, old(r).pos());
        if sp is Some {
            assert(w.bits() =~= b0 + sp->Some_0.1);
        }
    }
    Some(())
}

/// Copies the frame cropping flag and offsets.
fn cp_cropping(r: &mut AnnexBBitstreamReader, w: &mut AnnexBBitstreamWriter) -> (res: Option<()>)
    requires
        old(r).wf(),
        old(w).wf(),
    ensures
        final(r).wf(),
        final(w).wf(),
        final(r).source() == old(r).source(),
        moved_as(*old(r), *final(r), *old(w), *final(w), sps_cropping(old(r).bits(), old(r).pos()), res is Some),
{
    proof {
        reveal(sps_cropping);
    }
    let ghost s = old(r).bits();
    let ghost b0 = old(w).bits();
    let frame_cropping_flag = cp_u(r, w, 1)?;
    if frame_cropping_flag != 0 {
        let _frame_crop_left_offset = cp_ue(r, w)?;
        let _frame_crop_right_offset = cp_ue(r, w)?;
        let _frame_crop_top_offset = cp_ue(r, w)?;
        let _frame_crop_bottom_offset = cp_ue(r, w)?;
    }
    proof {
        let sp = sps_cropping(s, old(r).pos());
        if sp is Some {
            assert(w.bits() =~= b0 + sp->Some_0.1);
        }
    }
    Some(())
}

/// Copies the frame part of the SPS and gives `max_num_ref_frames`.
#[verifier::rlimit(40)]
fn cp_frame(r: &mut AnnexBBitstreamReader, w: &mut AnnexBBitstreamWriter) -> (res: Option<u32>)
    requires
        old(r).wf(),
        old(w).wf(),
    ensures
        final(r).wf(),
        final(w).wf(),
        final(r).source() == old(r).source(),
        match sps_frame(old(r).bits(), old(r).pos()) {
            None => res is None,
            Some((p, o, m)) => res == Some(m) && final(r).pos() == p && final(w).bits() == old(
                w,
            ).bits() + o && m < 0xffff_ffff,
        },
{
    proof {
        reveal(sps_frame);
    }
    let ghost s = old(r).bits();
    let ghost b0 = old(w).bits();
    let _log2_max_frame_num_minus4 = cp_ue(r, w)?;
    cp_poc(r, w)?;
    let max_num_ref_frames = cp_ue(r, w)?;
    let _gaps_in_frame_num_value_allowed_flag = cp_u(r, w, 1)?;
    let _pic_width_in_mbs_minus1 = cp_ue(r, w)?;
    let _pic_height_in_map_units_minus1 = cp_ue(r, w)?;
    let frame_mbs_only_flag = cp_u(r, w, 1)?;
    if frame_mbs_only_flag == 0 {
        let _mb_adaptive_frame_field_flag = cp_u(r, w, 1)?;
    } else {
        proof {
            assert(w.bits() + Seq::<bool>::empty() =~= w.bits());
        }
    }
    let _direct_8x8_inference_flag = cp_u(r, w, 1)?;
    cp_cropping(r, w)?;
    proof {
        let sp = sps_frame(s, old(r).pos());
        if sp is Some {
            assert(w.bits() =~= b0 + sp->Some_0.1);
        }
    }
    Some(max_num_ref_frames)
}

/// Writes the default `bitstream_restriction()` block.
fn write_bitstream_restriction(writer: &mut AnnexBBitstreamWriter, max_num_ref_frames: u32)
    requires
        old(writer).wf(),
        max_num_ref_frames < 0xffff_ffff,
    ensures
        final(writer).wf(),
        final(writer).bits() == old(writer).bits() + default_restriction(max_num_ref_frames),
{
    writer.write_bits(1, 1);
    writer.write_ue(2);
    writer.write_ue(1);
    writer.write_ue(16);
    writer.write_ue(16);
    writer.write_ue(0);
    writer.write_ue(max_num_ref_frames);
    proof {
        assert(final(writer).bits() =~= old(writer).bits() + default_restriction(max_num_ref_frames));
    }
}

/// Copies an `hrd_parameters()` block.
fn copy_hrd_parameters(reader: &mut AnnexBBitstreamReader, writer: &mut AnnexBBitstreamWriter) -> (res:
    Option<()>)
    requires
        old(reader).wf(),
        old(writer).wf(),
    ensures
        final(reader).wf(),
        final(writer).wf(),
        final(reader).source() == old(reader).source(),
        moved_as(*old(reader), *final(reader), *old(writer), *final(writer), hrd_parameters(old(reader).bits(), old(reader).pos()), res is Some),
{
    proof {
        reveal(hrd_parameters);
    }
    let ghost s = old(reader).bits();
    let ghost p0 = old(reader).pos();
    let ghost b0 = old(writer).bits();
    let cpb_cnt_minus1 = cp_ue(reader, writer)?;
    let _bit_rate_scale = cp_u(reader, writer, 4)?;
    let _cpb_size_scale = cp_u(reader, writer, 4)?;
    let ghost p3 = reader.pos();
    let ghost pre3 = writer.bits().subrange(b0.len() as int, writer.bits().len() as int);
    let n: u64 = cpb_cnt_minus1 as u64 + 1;
    proof {
        assert(writer.bits() =~= b0 + pre3);
        assert(hrd_parameters(s, p0) == (match hrd_entries(s, p3, n as nat) {
            Some((p4, o4)) => join(pre3 + o4, copy_u5_n(s, p4, 4)),
            None => None,
        }));
    }
    let ghost mut done: Seq<bool> = Seq::empty();
    let mut k: u64 = 0;
    proof {
        lemma_join_empty(hrd_entries(s, p3, n as nat));
        assert(pre3 + done =~= pre3);
    }
    while k < n
        invariant
            reader.wf(),
            writer.wf(),
            reader.source() == old(reader).source(),
            s == reader.bits(),
            s == old(reader).bits(),
            p0 == old(reader).pos(),
            b0 == old(writer).bits(),
            k <= n,
            writer.bits() == b0 + pre3 + done,
            hrd_entries(s, p3, n as nat) == join(done, hrd_entries(s, reader.pos(), (n - k) as nat)),
            hrd_parameters(s, p0) == (match hrd_entries(s, p3, n as nat) {
                Some((p4, o4)) => join(pre3 + o4, copy_u5_n(s, p4, 4)),
                None => None,
            }),
        decreases n - k,
    {
        let ghost pos = reader.pos();
        let r1 = cp_ue(reader, writer);
        if r1.is_none() {
            proof {
                assert(hrd_entries(s, pos, (n - k) as nat) is None);
            }
            return None;
        }
        let ghost o1 = copy_ue(s, pos)->Some_0.2;
        let ghost q1 = reader.pos();
        let r2 = cp_ue(reader, writer);
        if r2.is_none() {
            proof {
                assert(hrd_entries(s, pos, (n - k) as nat) is None);
            }
            return None;
        }
        let ghost o2 = copy_ue(s, q1)->Some_0.2;
        let ghost q2 = reader.pos();
        let r3 = cp_u(reader, writer, 1);
        if r3.is_none() {
            proof {
                assert(hrd_entries(s, pos, (n - k) as nat) is None);
            }
            return None;
        }
        proof {
            let o3 = copy_u(s, q2, 1)->Some_0.2;
            lemma_join_join(done, o1 + o2 + o3, hrd_entries(s, reader.pos(), (n - k - 1) as nat));
            done = done + (o1 + o2 + o3);
            assert(writer.bits() =~= b0 + pre3 + done);
        }
        k = k + 1;
    }
    let ghost p4 = reader.pos();
    let ghost pre4 = pre3 + done;
    proof {
        assert(done + Seq::<bool>::empty() =~= done);
        assert(hrd_parameters(s, p0) == join(pre4, copy_u5_n(s, p4, 4)));
    }
    let mut j: u32 = 0;
    let ghost mut tail: Seq<bool> = Seq::empty();
    proof {
        lemma_join_empty(copy_u5_n(s, p4, 4));
        assert(pre4 + tail =~= pre4);
    }
    while j < 4
        invariant
            reader.wf(),
            writer.wf(),
            reader.source() == old(reader).source(),
            s == reader.bits(),
            s == old(reader).bits(),
            p0 == old(reader).pos(),
            b0 == old(writer).bits(),
            j <= 4,
            writer.bits() == b0 + pre4 + tail,
            copy_u5_n(s, p4, 4) == join(tail, copy_u5_n(s, reader.pos(), (4 - j) as nat)),
            hrd_parameters(s, p0) == join(pre4, copy_u5_n(s, p4, 4)),
        decreases 4 - j,
    {
        let ghost pos = reader.pos();
        let v = cp_u(reader, writer, 5);
        if v.is_none() {
            proof {
                assert(copy_u5_n(s, pos, (4 - j) as nat) is None);
            }
            return None;
        }
        proof {
            let o1 = copy_u(s, pos, 5)->Some_0.2;
            lemma_join_join(tail, o1, copy_u5_n(s, reader.pos(), (4 - j - 1) as nat));
            tail = tail + o1;
            assert(writer.bits() =~= b0 + pre4 + tail);
        }
        j = j + 1;
    }
    proof {
        assert(tail + Seq::<bool>::empty() =~= tail);
        lemma_join_join(pre4, tail, Some((reader.pos(), Seq::<bool>::empty())));
        assert(writer.bits() =~= b0 + (pre4 + tail));
    }
    Some(())
}

/// Reads past the video signal type.
fn skip_video_signal(r: &mut AnnexBBitstreamReader) -> (res: Option<()>)
    requires
        old(r).wf(),
    ensures
        final(r).wf(),
        final(r).source() == old(r).source(),
        match vui_signal_skip(old(r).bits(), old(r).pos()) {
            None => res is None,
            Some(p) => res is Some && final(r).pos() == p,
        },
{
    proof {
        reveal(vui_signal_skip);
    }
    let video_signal_type_present_flag = rd_u(r, 1)?;
    if video_signal_type_present_flag != 0 {
        let _video_format = rd_u(r, 3)?;
        let _video_full_range_flag = rd_u(r, 1)?;
        let colour_description_present_flag = rd_u(r, 1)?;
        if colour_description_present_flag != 0 {
            let _colour_primaries = rd_u(r, 8)?;
            let _transfer_characteristics = rd_u(r, 8)?;
            let _matrix_coeffs = rd_u(r, 8)?;
        }
    }
    Some(())
}

/// Copies chroma location and timing info.
fn cp_chroma_timing(r: &mut AnnexBBitstreamReader, w: &mut AnnexBBitstreamWriter) -> (res: Option<
    (),
>)
    requires
        old(r).wf(),
        old(w).wf(),
    ensures
        final(r).wf(),
        final(w).wf(),
        final(r).source() == old(r).source(),
        moved_as(*old(r), *final(r), *old(w), *final(w), vui_chroma_timing(old(r).bits(), old(r).pos()), res is Some),
{
    proof {
        reveal(vui_chroma_timing);
    }
    let ghost s = old(r).bits();
    let ghost b0 = old(w).bits();
    let chroma_loc_info_present_flag = cp_u(r, w, 1)?;
    if chroma_loc_info_present_flag != 0 {
        let _chroma_sample_loc_type_top_field = cp_ue(r, w)?;
        let _chroma_sample_loc_type_bottom_field = cp_ue(r, w)?;
    } else {
        proof {
            assert(w.bits() + Seq::<bool>::empty() =~= w.bits());
        }
    }
    let timing_info_present_flag = cp_u(r, w, 1)?;
    if timing_info_present_flag != 0 {
        let _num_units_in_tick = cp_u(r, w, 32)?;
        let _time_scale = cp_u(r, w, 32)?;
        let _fixed_frame_rate_flag = cp_u(r, w, 1)?;
    }
    proof {
        let sp = vui_chroma_timing(s, old(r).pos());
        if sp is Some {
            assert(w.bits() =~= b0 + sp->Some_0.1);
        }
    }
    Some(())
}

/// Copies the VUI fields before the HRD blocks, dropping the video signal type.
fn cp_vui_head(r: &mut AnnexBBitstreamReader, w: &mut AnnexBBitstreamWriter) -> (res: Option<()>)
    requires
        old(r).wf(),
        old(w).wf(),
    ensures
        final(r).wf(),
        final(w).wf(),
        final(r).source() == old(r).source(),
        moved_as(*old(r), *final(r), *old(w), *final(w), vui_head(old(r).bits(), old(r).pos()), res is Some),
{
    proof {
        reveal(vui_head);
    }
    let ghost s = old(r).bits();
    let ghost b0 = old(w).bits();
    let aspect_ratio_info_present_flag = cp_u(r, w, 1)?;
    if aspect_ratio_info_present_flag != 0 {
        let aspect_ratio_idc = cp_u(r, w, 8)?;
        if aspect_ratio_idc == 255 {
            let _sar_width = cp_u(r, w, 16)?;
            let _sar_height = cp_u(r, w, 16)?;
        }
    } else {
        proof {
            assert(w.bits() + Seq::<bool>::empty() =~= w.bits());
        }
    }
    let overscan_info_present_flag = cp_u(r, w, 1)?;
    if overscan_info_present_flag != 0 {
        let _overscan_appropriate_flag = cp_u(r, w, 1)?;
    } else {
        proof {
            assert(w.bits() + Seq::<bool>::empty() =~= w.bits());
        }
    }
    skip_video_signal(r)?;
    w.write_bits(0, 1);
    cp_chroma_timing(r, w)?;
    proof {
        let sp = vui_head(s, old(r).pos());
        if sp is Some {
            assert(w.bits() =~= b0 + sp->Some_0.1);
        }
    }
    Some(())
}

/// Copies the HRD flags and blocks, the low delay flag and the picture structure flag.
fn cp_vui_hrd(r: &mut AnnexBBitstreamReader, w: &mut AnnexBBitstreamWriter) -> (res: Option<()>)
    requires
        old(r).wf(),
        old(w).wf(),
    ensures
        final(r).wf(),
        final(w).wf(),
        final(r).source() == old(r).source(),
        moved_as(*old(r), *final(r), *old(w), *final(w), vui_hrd(old(r).bits(), old(r).pos()), res is Some),
{
    proof {
        reveal(vui_hrd);
    }
    let ghost s = old(r).bits();
    let ghost b0 = old(w).bits();
    let nal_hrd_parameters_present_flag = cp_u(r, w, 1)?;
    if nal_hrd_parameters_present_flag != 0 {
        copy_hrd_parameters(r, w)?;
    } else {
        proof {
            assert(w.bits() + Seq::<bool>::empty() =~= w.bits());
        }
    }
    let vcl_hrd_parameters_present_flag = cp_u(r, w, 1)?;
    if vcl_hrd_parameters_present_flag != 0 {
        copy_hrd_parameters(r, w)?;
    } else {
        proof {
            assert(w.bits() + Seq::<bool>::empty() =~= w.bits());
        }
    }
    if nal_hrd_parameters_present_flag != 0 || vcl_hrd_parameters_present_flag != 0 {
        let _low_delay_hrd_flag = cp_u(r, w, 1)?;
    } else {
        proof {
            assert(w.bits() + Seq::<bool>::empty() =~= w.bits());
        }
    }
    let _pic_struct_present_flag = cp_u(r, w, 1)?;
    proof {
        let sp = vui_hrd(s, old(r).pos());
        if sp is Some {
            assert(w.bits() =~= b0 + sp->Some_0.1);
        }
    }
    Some(())
}

/// Rewrites the bitstream restriction: always present, no reordering, and
/// `max_num_ref_frames` frames of buffering.
fn cp_restriction(r: &mut AnnexBBitstreamReader, w: &mut AnnexBBitstreamWriter, max_num_ref_frames: u32) -> (res:
    Option<()>)
    requires
        old(r).wf(),
        old(w).wf(),
        max_num_ref_frames < 0xffff_ffff,
    ensures
        final(r).wf(),
        final(w).wf(),
        final(r).source() == old(r).source(),
        moved_as(*old(r), *final(r), *old(w), *final(w), vui_restriction(old(r).bits(), old(r).pos(), max_num_ref_frames), res is Some),
{
    proof {
        reveal(vui_restriction);
    }
    let ghost s = old(r).bits();
    let ghost b0 = old(w).bits();
    let bitstream_restriction_flag = rd_u(r, 1)?;
    w.write_bits(1, 1);
    if bitstream_restriction_flag == 0 {
        write_bitstream_restriction(w, max_num_ref_frames);
    } else {
        let _motion_vectors_over_pic_boundaries_flag = cp_u(r, w, 1)?;
        let _max_bytes_per_pic_denom = cp_ue(r, w)?;
        let _max_bits_per_mb_denom = cp_ue(r, w)?;
        let _log2_max_mv_length_horizontal = cp_ue(r, w)?;
        let _log2_max_mv_length_vertical = cp_ue(r, w)?;
        let _num_reorder_frames = rd_ue(r)?;
        w.write_ue(0);
        let _max_dec_frame_buffering = rd_ue(r)?;
        w.write_ue(max_num_ref_frames);
    }
    proof {
        let sp = vui_restriction(s, old(r).pos(), max_num_ref_frames);
        if sp is Some {
            assert(w.bits() =~= b0 + sp->Some_0.1);
        }
    }
    Some(())
}

/// Rewrites the VUI, writing a minimal one when the input has none.
fn cp_vui(r: &mut AnnexBBitstreamReader, w: &mut AnnexBBitstreamWriter, max_num_ref_frames: u32) -> (res:
    Option<()>)
    requires
        old(r).wf(),
        old(w).wf(),
        max_num_ref_frames < 0xffff_ffff,
    ensures
        final(r).wf(),
        final(w).wf(),
        final(r).source() == old(r).source(),
        moved_as(*old(r), *final(r), *old(w), *final(w), sps_vui(old(r).bits(), old(r).pos(), max_num_ref_frames), res is Some),
{
    proof {
        reveal(sps_vui);
    }
    let ghost s = old(r).bits();
    let ghost b0 = old(w).bits();
    let vui_parameters_present_flag = rd_u(r, 1)?;
    w.write_bits(1, 1);
    if vui_parameters_present_flag == 0 {
        w.write_bits(0, 2);
        w.write_bits(0, 1);
        w.write_bits(0, 5);
        w.write_bits(1, 1);
        write_bitstream_restriction(w, max_num_ref_frames);
    } else {
        cp_vui_head(r, w)?;
        cp_vui_hrd(r, w)?;
        cp_restriction(r, w, max_num_ref_frames)?;
    }
    proof {
        let sp = sps_vui(s, old(r).pos(), max_num_ref_frames);
        if sp is Some {
            assert(w.bits() =~= b0 + sp->Some_0.1);
        }
    }
    Some(())
}

/// Rewrites an H264 SPS NAL unit (header byte included) as `rewrite_sps_vui` does, or
/// gives `None` where the NAL unit cannot be read through.
pub fn try_rewrite_sps_vui(buffer: &[u8]) -> (r: Option<Vec<u8>>)
    ensures
        match spec_rewrite_sps_vui(buffer@) {
            None => r is None,
            Some(out) => r is Some && r->0@ == out,
        },
{
    proof {
        reveal(sps_rewrite_bits);
    }
    if buffer.len() == 0 {
        return None;
    }
    let mut reader = AnnexBBitstreamReader::new(&buffer[1..buffer.len()]);
    let mut writer = AnnexBBitstreamWriter::new();
    let ghost s = reader.bits();
    writer.write_unsigned(buffer[0] as u32, 8);
    let ghost b1 = writer.bits();
    let profile_idc = cp_u(&mut reader, &mut writer, 8)?;
    let _constraint_flags = cp_u(&mut reader, &mut writer, 8)?;
    let _level_idc = cp_u(&mut reader, &mut writer, 8)?;
    let _seq_parameter_set_id = cp_ue(&mut reader, &mut writer)?;
    cp_high(&mut reader, &mut writer, profile_idc)?;
    let max_num_ref_frames = cp_frame(&mut reader, &mut writer)?;
    cp_vui(&mut reader, &mut writer, max_num_ref_frames)?;
    let ghost body_end = writer.bits();
    writer.write_bits(1, 1);
    writer.flush_final();
    proof {
        assert(s == sps_payload_bits(buffer@));
        let body = sps_rewrite_bits(s)->Some_0;
        assert(body_end =~= u32_bits(buffer@[0] as u32, 8) + body);
        let all = u32_bits(buffer@[0] as u32, 8) + body + u32_bits(1, 1);
        assert(writer.bits() =~= pad_to_byte(all));
        assert(writer.bits().take(writer.bits().len() - writer.bits().len() % 8) =~= writer.bits());
    }
    Some(writer.to_vec())
}

/// Rewrites the VUI of an H264 SPS NAL unit (header byte included) so that
/// `max_num_reorder_frames = 0`, and returns the new NAL unit.
pub fn rewrite_sps_vui(buffer: &[u8]) -> (r: Vec<u8>)
    requires
        spec_rewrite_sps_vui(buffer@) is Some,
    ensures
        r@ == spec_rewrite_sps_vui(buffer@)->0,
{
    match try_rewrite_sps_vui(buffer) {
        Some(v) => v,
        None => Vec::new(),
    }
}

} // verus!

//! Reading a rewritten SPS again: every part the rewriter writes reads back as
//! itself, so the rewritten SPS carries a bitstream restriction with
//! `max_num_reorder_frames = 0`.
use vstd::prelude::*;
use super::annexb_rw::{
    first_one, lemma_first_one_ge, lemma_se_roundtrip, lemma_ue_roundtrip, se_at, se_bits, ue_at,
    ue_bits,
};
use super::bits::{
    bits_to_bytes, bytes_to_bits, lemma_byte_bits_roundtrip, lemma_byte_of_u32,
    lemma_bytes_to_bits_of_bits, pad_to_byte, zeros, bits_to_u32, lemma_bit_facts, lemma_bits_to_u32_bound, lemma_u32_bits_of_bits, u32_bits,
};
use super::escape::{escape, lemma_escape_first, lemma_unescape_after_first, lemma_unescape_escape, unescape};
use super::sps_spec::{
    sps_payload_bits, sps_rewrite_bits, spec_rewrite_sps_vui,
    copy_se, copy_se_n, copy_u, copy_u5_n, copy_ue, hrd_entries, hrd_parameters, is_high_profile, join, read_u,
    default_restriction, scaling_lists, sps_cropping, sps_frame, sps_high, sps_poc, sps_vui,
    vui_chroma_timing, vui_head, vui_hrd, vui_restriction, vui_signal_skip,
};

verus! {

/// The bits `o` stand at position `q` of `s`.
pub open spec fn bits_at(s: Seq<bool>, q: int, o: Seq<bool>) -> bool {
    0 <= q && q + o.len() <= s.len() && s.subrange(q, q + o.len()) == o
}

/// Bits standing at `q` that are two pieces one after the other: each piece stands
/// in its place.
pub proof fn lemma_bits_at_split(s: Seq<bool>, q: int, a: Seq<bool>, b: Seq<bool>)
    requires
        bits_at(s, q, a + b),
    ensures
        bits_at(s, q, a),
        bits_at(s, q + a.len(), b),
{
    let w = s.subrange(q, q + (a + b).len());
    assert(w == a + b);
    assert(s.subrange(q, q + a.len()) =~= w.subrange(0, a.len() as int));
    assert(w.subrange(0, a.len() as int) =~= a);
    assert(s.subrange(q + a.len(), q + a.len() + b.len()) =~= w.subrange(
        a.len() as int,
        (a.len() + b.len()) as int,
    ));
    assert(w.subrange(a.len() as int, (a.len() + b.len()) as int) =~= b);
}

/// Exp-Golomb bounds: a code with fewer than 32 leading zeros holds a value below
/// `0xffff_ffff`.
proof fn lemma_ue_value_bound(lz: u32, t: u32)
    by (bit_vector)
    requires
        lz < 32,
        t >> lz == 0,
    ensures
        (1u32 << lz) as int + t as int - 1 <= 0xffff_fffe,
        (1u32 << lz) >= 1,
{
}

/// The values `ue_at` gives can be written back.
pub proof fn lemma_ue_at_bound(s: Seq<bool>, p: int)
    requires
        ue_at(s, p) is Some,
    ensures
        ue_at(s, p)->Some_0.0 < 0xffff_ffff,
{
    match first_one(s, p) {
        Some(q) => {
            let lz = q - p;
            assert(lz < 32 && q + 1 + lz <= s.len());
            lemma_first_one_ge(s, p);
            let tail = s.subrange(q + 1, q + 1 + lz);
            lemma_bits_to_u32_bound(tail);
            lemma_ue_value_bound(lz as u32, bits_to_u32(tail));
        },
        None => {},
    }
}

/// Fixed bits copied from one place read back as themselves at another.
pub proof fn lemma_copy_u_reread(s: Seq<bool>, p: int, n: nat, s2: Seq<bool>, q: int)
    requires
        n <= 32,
        copy_u(s, p, n) is Some,
        bits_at(s2, q, copy_u(s, p, n)->Some_0.2),
    ensures
        copy_u(s2, q, n) is Some,
        copy_u(s2, q, n)->Some_0.0 == copy_u(s, p, n)->Some_0.0,
        copy_u(s2, q, n)->Some_0.1 == q + n,
        copy_u(s2, q, n)->Some_0.2 == copy_u(s, p, n)->Some_0.2,
{
    let x = s.subrange(p, p + n);
    lemma_u32_bits_of_bits(x);
    assert(s2.subrange(q, q + n) == x);
}

/// A copied unsigned Exp-Golomb code reads back as itself.
pub proof fn lemma_copy_ue_reread(s: Seq<bool>, p: int, s2: Seq<bool>, q: int)
    requires
        copy_ue(s, p) is Some,
        bits_at(s2, q, copy_ue(s, p)->Some_0.2),
    ensures
        copy_ue(s2, q) is Some,
        copy_ue(s2, q)->Some_0.0 == copy_ue(s, p)->Some_0.0,
        copy_ue(s2, q)->Some_0.1 == q + copy_ue(s, p)->Some_0.2.len(),
        copy_ue(s2, q)->Some_0.2 == copy_ue(s, p)->Some_0.2,
{
    let v = ue_at(s, p)->Some_0.0;
    lemma_ue_at_bound(s, p);
    let code = ue_bits(v);
    let pre = s2.subrange(0, q);
    let rest = s2.subrange(q + code.len(), s2.len() as int);
    assert(s2 =~= pre + code + rest);
    lemma_ue_roundtrip(pre, v, rest);
}

/// A copied signed Exp-Golomb code reads back as itself.
pub proof fn lemma_copy_se_reread(s: Seq<bool>, p: int, s2: Seq<bool>, q: int)
    requires
        copy_se(s, p) is Some,
        bits_at(s2, q, copy_se(s, p)->Some_0.2),
    ensures
        copy_se(s2, q) is Some,
        copy_se(s2, q)->Some_0.0 == copy_se(s, p)->Some_0.0,
        copy_se(s2, q)->Some_0.1 == q + copy_se(s, p)->Some_0.2.len(),
        copy_se(s2, q)->Some_0.2 == copy_se(s, p)->Some_0.2,
{
    let x = se_at(s, p)->Some_0.0;
    let code = se_bits(x);
    let pre = s2.subrange(0, q);
    let rest = s2.subrange(q + code.len(), s2.len() as int);
    assert(s2 =~= pre + code + rest);
    lemma_se_roundtrip(pre, x, rest);
}

/// What a copying step wrote reads back, at the place it stands, as itself.
pub open spec fn rereads(r: Option<(int, Seq<bool>)>, r2: Option<(int, Seq<bool>)>, q: int) -> bool {
    r is Some ==> r2 == Some((q + r->Some_0.1.len(), r->Some_0.1))
}

/// Signed codes copied in a row read back as themselves.
pub proof fn lemma_copy_se_n_reread(s: Seq<bool>, p: int, n: nat, s2: Seq<bool>, q: int)
    requires
        copy_se_n(s, p, n) is Some,
        bits_at(s2, q, copy_se_n(s, p, n)->Some_0.1),
    ensures
        rereads(copy_se_n(s, p, n), copy_se_n(s2, q, n), q),
    decreases n,
{
    if n > 0 {
        let (_x, p1, o1) = copy_se(s, p)->Some_0;
        let rest = copy_se_n(s, p1, (n - 1) as nat);
        let o = copy_se_n(s, p, n)->Some_0.1;
        assert(o == o1 + rest->Some_0.1);
        lemma_bits_at_split(s2, q, o1, rest->Some_0.1);
        lemma_copy_se_reread(s, p, s2, q);
        lemma_copy_se_n_reread(s, p1, (n - 1) as nat, s2, q + o1.len());
        assert(o1 + rest->Some_0.1 =~= o);
    }
}

/// Copied scaling lists read back as themselves.
pub proof fn lemma_scaling_lists_reread(s: Seq<bool>, p: int, i: nat, count: nat, s2: Seq<bool>, q: int)
    requires
        scaling_lists(s, p, i, count) is Some,
        bits_at(s2, q, scaling_lists(s, p, i, count)->Some_0.1),
    ensures
        rereads(scaling_lists(s, p, i, count), scaling_lists(s2, q, i, count), q),
    decreases count - i,
{
    if i < count {
        let (flag, p1, o1) = copy_u(s, p, 1)->Some_0;
        let o = scaling_lists(s, p, i, count)->Some_0.1;
        if flag != 0 {
            let n: nat = if i < 6 { 16 } else { 64 };
            let (p2, o2) = copy_se_n(s, p1, n)->Some_0;
            let rest = scaling_lists(s, p2, i + 1, count)->Some_0.1;
            assert(o == (o1 + o2) + rest);
            assert((o1 + o2) + rest =~= o1 + (o2 + rest));
            lemma_bits_at_split(s2, q, o1, o2 + rest);
            lemma_bits_at_split(s2, q + o1.len(), o2, rest);
            lemma_copy_u_reread(s, p, 1, s2, q);
            lemma_copy_se_n_reread(s, p1, n, s2, q + o1.len());
            lemma_scaling_lists_reread(s, p2, i + 1, count, s2, q + o1.len() + o2.len());
        } else {
            let rest = scaling_lists(s, p1, i + 1, count)->Some_0.1;
            lemma_bits_at_split(s2, q, o1, rest);
            lemma_copy_u_reread(s, p, 1, s2, q);
            lemma_scaling_lists_reread(s, p1, i + 1, count, s2, q + o1.len());
        }
    }
}

/// Copied HRD entries read back as themselves.
pub proof fn lemma_hrd_entries_reread(s: Seq<bool>, p: int, n: nat, s2: Seq<bool>, q: int)
    requires
        hrd_entries(s, p, n) is Some,
        bits_at(s2, q, hrd_entries(s, p, n)->Some_0.1),
    ensures
        rereads(hrd_entries(s, p, n), hrd_entries(s2, q, n), q),
    decreases n,
{
    if n > 0 {
        let (_r, p1, o1) = copy_ue(s, p)->Some_0;
        let (_z, p2, o2) = copy_ue(s, p1)->Some_0;
        let (_c, p3, o3) = copy_u(s, p2, 1)->Some_0;
        let rest = hrd_entries(s, p3, (n - 1) as nat)->Some_0.1;
        assert((o1 + o2 + o3) + rest =~= o1 + (o2 + (o3 + rest)));
        lemma_bits_at_split(s2, q, o1, o2 + (o3 + rest));
        lemma_bits_at_split(s2, q + o1.len(), o2, o3 + rest);
        lemma_bits_at_split(s2, q + o1.len() + o2.len(), o3, rest);
        lemma_copy_ue_reread(s, p, s2, q);
        lemma_copy_ue_reread(s, p1, s2, q + o1.len());
        lemma_copy_u_reread(s, p2, 1, s2, q + o1.len() + o2.len());
        lemma_hrd_entries_reread(s, p3, (n - 1) as nat, s2, q + o1.len() + o2.len() + o3.len());
    }
}

/// Copied 5-bit fields read back as themselves.
pub proof fn lemma_copy_u5_n_reread(s: Seq<bool>, p: int, n: nat, s2: Seq<bool>, q: int)
    requires
        copy_u5_n(s, p, n) is Some,
        bits_at(s2, q, copy_u5_n(s, p, n)->Some_0.1),
    ensures
        rereads(copy_u5_n(s, p, n), copy_u5_n(s2, q, n), q),
    decreases n,
{
    if n > 0 {
        let (_v, p1, o1) = copy_u(s, p, 5)->Some_0;
        let rest = copy_u5_n(s, p1, (n - 1) as nat)->Some_0.1;
        lemma_bits_at_split(s2, q, o1, rest);
        lemma_copy_u_reread(s, p, 5, s2, q);
        lemma_copy_u5_n_reread(s, p1, (n - 1) as nat, s2, q + o1.len());
    }
}

/// The piece `b` of bits `a + b + c` standing at `q` stands after `a`.
pub proof fn lemma_bits_at_piece(s: Seq<bool>, q: int, a: Seq<bool>, b: Seq<bool>, c: Seq<bool>)
    requires
        bits_at(s, q, a + b + c),
    ensures
        bits_at(s, q + a.len(), b),
        bits_at(s, q, a),
        bits_at(s, q + a.len() + b.len(), c),
{
    lemma_bits_at_split(s, q, a + b, c);
    lemma_bits_at_split(s, q, a, b);
}

/// The copied frame cropping fields read back as themselves.
pub proof fn lemma_sps_cropping_reread(s: Seq<bool>, p: int, s2: Seq<bool>, q: int)
    requires
        sps_cropping(s, p) is Some,
        bits_at(s2, q, sps_cropping(s, p)->Some_0.1),
    ensures
        rereads(sps_cropping(s, p), sps_cropping(s2, q), q),
{
    reveal(sps_cropping);
    let (flag, p1, o1) = copy_u(s, p, 1)->Some_0;
    if flag != 0 {
        let (_a, p2, o2) = copy_ue(s, p1)->Some_0;
        let (_b, p3, o3) = copy_ue(s, p2)->Some_0;
        let (_c, p4, o4) = copy_ue(s, p3)->Some_0;
        let (_d, p5, o5) = copy_ue(s, p4)->Some_0;
        let o = o1 + o2 + o3 + o4 + o5;
        assert(sps_cropping(s, p)->Some_0.1 == o);
        assert(o =~= o1 + o2 + (o3 + o4 + o5));
        lemma_bits_at_piece(s2, q, o1, o2, o3 + o4 + o5);
        assert(o =~= (o1 + o2) + o3 + (o4 + o5));
        lemma_bits_at_piece(s2, q, o1 + o2, o3, o4 + o5);
        assert(o =~= (o1 + o2 + o3) + o4 + o5);
        lemma_bits_at_piece(s2, q, o1 + o2 + o3, o4, o5);
        lemma_copy_u_reread(s, p, 1, s2, q);
        lemma_copy_ue_reread(s, p1, s2, q + o1.len());
        lemma_copy_ue_reread(s, p2, s2, q + o1.len() + o2.len());
        lemma_copy_ue_reread(s, p3, s2, q + o1.len() + o2.len() + o3.len());
        lemma_copy_ue_reread(s, p4, s2, q + o1.len() + o2.len() + o3.len() + o4.len());
    } else {
        assert(sps_cropping(s, p)->Some_0.1 == o1);
        lemma_copy_u_reread(s, p, 1, s2, q);
    }
}


/// The copied picture order count part reads back as itself.
#[verifier::spinoff_prover]
#[verifier::rlimit(60)]
pub proof fn lemma_sps_poc_reread(s: Seq<bool>, p: int, s2: Seq<bool>, q: int)
    requires
        sps_poc(s, p) is Some,
        bits_at(s2, q, sps_poc(s, p)->Some_0.1),
    ensures
        rereads(sps_poc(s, p), sps_poc(s2, q), q),
{
    reveal(sps_poc);
    let (poc_type, p1, o1) = copy_ue(s, p)->Some_0;
    let o = sps_poc(s, p)->Some_0.1;
    if poc_type == 0 {
        let (_v, p2, o2) = copy_ue(s, p1)->Some_0;
        assert(o == o1 + o2);
        assert(o1 + o2 =~= Seq::<bool>::empty() + o1 + (o2));
        lemma_bits_at_piece(s2, q, Seq::<bool>::empty(), o1, (o2));
        assert(o1 + o2 =~= (o1) + o2 + Seq::<bool>::empty());
        lemma_bits_at_piece(s2, q, (o1), o2, Seq::<bool>::empty());
        lemma_copy_ue_reread(s, p, s2, q);
        lemma_copy_ue_reread(s, p1, s2, q + o1.len());
    } else if poc_type == 1 {
        let (_f, p2, o2) = copy_u(s, p1, 1)->Some_0;
        let (_a, p3, o3) = copy_se(s, p2)->Some_0;
        let (_b, p4, o4) = copy_se(s, p3)->Some_0;
        let (n, p5, o5) = copy_ue(s, p4)->Some_0;
        let (p6, o6) = copy_se_n(s, p5, n as nat)->Some_0;
        assert(o == o1 + ((o2 + o3 + o4 + o5) + o6));
        assert(o =~= o1 + o2 + o3 + o4 + o5 + o6);
        assert(o1 + o2 + o3 + o4 + o5 + o6 =~= Seq::<bool>::empty() + o1 + (o2 + o3 + o4 + o5 + o6));
        lemma_bits_at_piece(s2, q, Seq::<bool>::empty(), o1, (o2 + o3 + o4 + o5 + o6));
        assert(o1 + o2 + o3 + o4 + o5 + o6 =~= (o1) + o2 + (o3 + o4 + o5 + o6));
        lemma_bits_at_piece(s2, q, (o1), o2, (o3 + o4 + o5 + o6));
        assert(o1 + o2 + o3 + o4 + o5 + o6 =~= (o1 + o2) + o3 + (o4 + o5 + o6));
        lemma_bits_at_piece(s2, q, (o1 + o2), o3, (o4 + o5 + o6));
        assert(o1 + o2 + o3 + o4 + o5 + o6 =~= (o1 + o2 + o3) + o4 + (o5 + o6));
        lemma_bits_at_piece(s2, q, (o1 + o2 + o3), o4, (o5 + o6));
        assert(o1 + o2 + o3 + o4 + o5 + o6 =~= (o1 + o2 + o3 + o4) + o5 + (o6));
        lemma_bits_at_piece(s2, q, (o1 + o2 + o3 + o4), o5, (o6));
        assert(o1 + o2 + o3 + o4 + o5 + o6 =~= (o1 + o2 + o3 + o4 + o5) + o6 + Seq::<bool>::empty());
        lemma_bits_at_piece(s2, q, (o1 + o2 + o3 + o4 + o5), o6, Seq::<bool>::empty());
        lemma_copy_ue_reread(s, p, s2, q);
        lemma_copy_u_reread(s, p1, 1, s2, q + o1.len());
        lemma_copy_se_reread(s, p2, s2, q + o1.len() + o2.len());
        lemma_copy_se_reread(s, p3, s2, q + o1.len() + o2.len() + o3.len());
        lemma_copy_ue_reread(s, p4, s2, q + o1.len() + o2.len() + o3.len() + o4.len());
        lemma_copy_se_n_reread(s, p5, n as nat, s2, q + o1.len() + o2.len() + o3.len() + o4.len() + o5.len());
        assert(o1 + ((o2 + o3 + o4 + o5) + o6) =~= o);
    } else {
        assert(o =~= o1);
        lemma_copy_ue_reread(s, p, s2, q);
        assert(o1 + Seq::<bool>::empty() =~= o1);
    }
}


/// A copied `hrd_parameters()` block reads back as itself.
#[verifier::spinoff_prover]
#[verifier::rlimit(60)]
pub proof fn lemma_hrd_parameters_reread(s: Seq<bool>, p: int, s2: Seq<bool>, q: int)
    requires
        hrd_parameters(s, p) is Some,
        bits_at(s2, q, hrd_parameters(s, p)->Some_0.1),
    ensures
        rereads(hrd_parameters(s, p), hrd_parameters(s2, q), q),
{
    reveal(hrd_parameters);
    let (cpb, p1, o1) = copy_ue(s, p)->Some_0;
    let (_a, p2, o2) = copy_u(s, p1, 4)->Some_0;
    let (_b, p3, o3) = copy_u(s, p2, 4)->Some_0;
    let (p4, o4) = hrd_entries(s, p3, (cpb + 1) as nat)->Some_0;
    let (p5, o5) = copy_u5_n(s, p4, 4)->Some_0;
    let o = hrd_parameters(s, p)->Some_0.1;
    assert(o == (o1 + o2 + o3 + o4) + o5);
    assert(o1 + o2 + o3 + o4 + o5 =~= Seq::<bool>::empty() + o1 + (o2 + o3 + o4 + o5));
    lemma_bits_at_piece(s2, q, Seq::<bool>::empty(), o1, (o2 + o3 + o4 + o5));
    assert(o1 + o2 + o3 + o4 + o5 =~= (o1) + o2 + (o3 + o4 + o5));
    lemma_bits_at_piece(s2, q, (o1), o2, (o3 + o4 + o5));
    assert(o1 + o2 + o3 + o4 + o5 =~= (o1 + o2) + o3 + (o4 + o5));
    lemma_bits_at_piece(s2, q, (o1 + o2), o3, (o4 + o5));
    assert(o1 + o2 + o3 + o4 + o5 =~= (o1 + o2 + o3) + o4 + (o5));
    lemma_bits_at_piece(s2, q, (o1 + o2 + o3), o4, (o5));
    assert(o1 + o2 + o3 + o4 + o5 =~= (o1 + o2 + o3 + o4) + o5 + Seq::<bool>::empty());
    lemma_bits_at_piece(s2, q, (o1 + o2 + o3 + o4), o5, Seq::<bool>::empty());
    lemma_copy_ue_reread(s, p, s2, q);
    lemma_copy_u_reread(s, p1, 4, s2, q + o1.len());
    lemma_copy_u_reread(s, p2, 4, s2, q + o1.len() + o2.len());
    lemma_hrd_entries_reread(s, p3, (cpb + 1) as nat, s2, q + o1.len() + o2.len() + o3.len());
    lemma_copy_u5_n_reread(s, p4, 4, s2, q + o1.len() + o2.len() + o3.len() + o4.len());
}

/// Copied chroma location and timing info read back as themselves.
#[verifier::spinoff_prover]
#[verifier::rlimit(60)]
pub proof fn lemma_vui_chroma_timing_reread(s: Seq<bool>, p: int, s2: Seq<bool>, q: int)
    requires
        vui_chroma_timing(s, p) is Some,
        bits_at(s2, q, vui_chroma_timing(s, p)->Some_0.1),
    ensures
        rereads(vui_chroma_timing(s, p), vui_chroma_timing(s2, q), q),
{
    reveal(vui_chroma_timing);
    let (chroma_loc, p1, o1) = copy_u(s, p, 1)->Some_0;
    let o = vui_chroma_timing(s, p)->Some_0.1;
    if chroma_loc != 0 {
        let (_t, x1, y1) = copy_ue(s, p1)->Some_0;
        let (_b, x2, y2) = copy_ue(s, x1)->Some_0;
        let o2 = y1 + y2;
        let (timing, p3, o3) = copy_u(s, x2, 1)->Some_0;
        if timing != 0 {
            let (_n, z1, r1) = copy_u(s, p3, 32)->Some_0;
            let (_u, z2, r2) = copy_u(s, z1, 32)->Some_0;
            let (_f, z3, r3) = copy_u(s, z2, 1)->Some_0;
            assert(o == o1 + o2 + o3 + r1 + r2 + r3);
            assert(o =~= o1 + y1 + y2 + o3 + r1 + r2 + r3);
            assert(o1 + y1 + y2 + o3 + r1 + r2 + r3 =~= Seq::<bool>::empty() + o1 + (y1 + y2 + o3 + r1 + r2 + r3));
            lemma_bits_at_piece(s2, q, Seq::<bool>::empty(), o1, (y1 + y2 + o3 + r1 + r2 + r3));
            assert(o1 + y1 + y2 + o3 + r1 + r2 + r3 =~= (o1) + y1 + (y2 + o3 + r1 + r2 + r3));
            lemma_bits_at_piece(s2, q, (o1), y1, (y2 + o3 + r1 + r2 + r3));
            assert(o1 + y1 + y2 + o3 + r1 + r2 + r3 =~= (o1 + y1) + y2 + (o3 + r1 + r2 + r3));
            lemma_bits_at_piece(s2, q, (o1 + y1), y2, (o3 + r1 + r2 + r3));
            assert(o1 + y1 + y2 + o3 + r1 + r2 + r3 =~= (o1 + y1 + y2) + o3 + (r1 + r2 + r3));
            lemma_bits_at_piece(s2, q, (o1 + y1 + y2), o3, (r1 + r2 + r3));
            assert(o1 + y1 + y2 + o3 + r1 + r2 + r3 =~= (o1 + y1 + y2 + o3) + r1 + (r2 + r3));
            lemma_bits_at_piece(s2, q, (o1 + y1 + y2 + o3), r1, (r2 + r3));
            assert(o1 + y1 + y2 + o3 + r1 + r2 + r3 =~= (o1 + y1 + y2 + o3 + r1) + r2 + (r3));
            lemma_bits_at_piece(s2, q, (o1 + y1 + y2 + o3 + r1), r2, (r3));
            assert(o1 + y1 + y2 + o3 + r1 + r2 + r3 =~= (o1 + y1 + y2 + o3 + r1 + r2) + r3 + Seq::<bool>::empty());
            lemma_bits_at_piece(s2, q, (o1 + y1 + y2 + o3 + r1 + r2), r3, Seq::<bool>::empty());
            lemma_copy_u_reread(s, p, 1, s2, q);
            lemma_copy_ue_reread(s, p1, s2, q + o1.len());
            lemma_copy_ue_reread(s, x1, s2, q + o1.len() + y1.len());
            lemma_copy_u_reread(s, x2, 1, s2, q + o1.len() + y1.len() + y2.len());
            lemma_copy_u_reread(s, p3, 32, s2, q + o1.len() + y1.len() + y2.len() + o3.len());
            lemma_copy_u_reread(s, z1, 32, s2, q + o1.len() + y1.len() + y2.len() + o3.len() + r1.len());
            lemma_copy_u_reread(s, z2, 1, s2, q + o1.len() + y1.len() + y2.len() + o3.len() + r1.len() + r2.len());
            assert(o1 + (y1 + y2) + o3 + r1 + r2 + r3 =~= o);
        } else {
            assert(o == o1 + o2 + o3);
            assert(o =~= o1 + y1 + y2 + o3);
            assert(o1 + y1 + y2 + o3 =~= Seq::<bool>::empty() + o1 + (y1 + y2 + o3));
            lemma_bits_at_piece(s2, q, Seq::<bool>::empty(), o1, (y1 + y2 + o3));
            assert(o1 + y1 + y2 + o3 =~= (o1) + y1 + (y2 + o3));
            lemma_bits_at_piece(s2, q, (o1), y1, (y2 + o3));
            assert(o1 + y1 + y2 + o3 =~= (o1 + y1) + y2 + (o3));
            lemma_bits_at_piece(s2, q, (o1 + y1), y2, (o3));
            assert(o1 + y1 + y2 + o3 =~= (o1 + y1 + y2) + o3 + Seq::<bool>::empty());
            lemma_bits_at_piece(s2, q, (o1 + y1 + y2), o3, Seq::<bool>::empty());
            lemma_copy_u_reread(s, p, 1, s2, q);
            lemma_copy_ue_reread(s, p1, s2, q + o1.len());
            lemma_copy_ue_reread(s, x1, s2, q + o1.len() + y1.len());
            lemma_copy_u_reread(s, x2, 1, s2, q + o1.len() + y1.len() + y2.len());
            assert(o1 + (y1 + y2) + o3 =~= o);
        }
    } else {
        let (timing, p3, o3) = copy_u(s, p1, 1)->Some_0;
        if timing != 0 {
            let (_n, z1, r1) = copy_u(s, p3, 32)->Some_0;
            let (_u, z2, r2) = copy_u(s, z1, 32)->Some_0;
            let (_f, z3, r3) = copy_u(s, z2, 1)->Some_0;
            assert(o == o1 + Seq::<bool>::empty() + o3 + r1 + r2 + r3);
            assert(o =~= o1 + o3 + r1 + r2 + r3);
            assert(o1 + o3 + r1 + r2 + r3 =~= Seq::<bool>::empty() + o1 + (o3 + r1 + r2 + r3));
            lemma_bits_at_piece(s2, q, Seq::<bool>::empty(), o1, (o3 + r1 + r2 + r3));
            assert(o1 + o3 + r1 + r2 + r3 =~= (o1) + o3 + (r1 + r2 + r3));
            lemma_bits_at_piece(s2, q, (o1), o3, (r1 + r2 + r3));
            assert(o1 + o3 + r1 + r2 + r3 =~= (o1 + o3) + r1 + (r2 + r3));
            lemma_bits_at_piece(s2, q, (o1 + o3), r1, (r2 + r3));
            assert(o1 + o3 + r1 + r2 + r3 =~= (o1 + o3 + r1) + r2 + (r3));
            lemma_bits_at_piece(s2, q, (o1 + o3 + r1), r2, (r3));
            assert(o1 + o3 + r1 + r2 + r3 =~= (o1 + o3 + r1 + r2) + r3 + Seq::<bool>::empty());
            lemma_bits_at_piece(s2, q, (o1 + o3 + r1 + r2), r3, Seq::<bool>::empty());
            lemma_copy_u_reread(s, p, 1, s2, q);
            lemma_copy_u_reread(s, p1, 1, s2, q + o1.len());
            lemma_copy_u_reread(s, p3, 32, s2, q + o1.len() + o3.len());
            lemma_copy_u_reread(s, z1, 32, s2, q + o1.len() + o3.len() + r1.len());
            lemma_copy_u_reread(s, z2, 1, s2, q + o1.len() + o3.len() + r1.len() + r2.len());
            assert(o1 + Seq::<bool>::empty() + o3 + r1 + r2 + r3 =~= o);
        } else {
            assert(o == o1 + Seq::<bool>::empty() + o3);
            assert(o =~= o1 + o3);
            assert(o1 + o3 =~= Seq::<bool>::empty() + o1 + (o3));
            lemma_bits_at_piece(s2, q, Seq::<bool>::empty(), o1, (o3));
            assert(o1 + o3 =~= (o1) + o3 + Seq::<bool>::empty());
            lemma_bits_at_piece(s2, q, (o1), o3, Seq::<bool>::empty());
            lemma_copy_u_reread(s, p, 1, s2, q);
            lemma_copy_u_reread(s, p1, 1, s2, q + o1.len());
            assert(o1 + Seq::<bool>::empty() + o3 =~= o);
        }
    }
}


/// The copied HRD flags and blocks read back as themselves.
#[verifier::spinoff_prover]
#[verifier::rlimit(80)]
pub proof fn lemma_vui_hrd_reread(s: Seq<bool>, p: int, s2: Seq<bool>, q: int)
    requires
        vui_hrd(s, p) is Some,
        bits_at(s2, q, vui_hrd(s, p)->Some_0.1),
    ensures
        rereads(vui_hrd(s, p), vui_hrd(s2, q), q),
{
    reveal(vui_hrd);
    let (nal, p1, o1) = copy_u(s, p, 1)->Some_0;
    let (p2, o2) = (if nal != 0 {
        hrd_parameters(s, p1)
    } else {
        Some((p1, Seq::<bool>::empty()))
    })->Some_0;
    let (vcl, p3, o3) = copy_u(s, p2, 1)->Some_0;
    let (p4, o4) = (if vcl != 0 {
        hrd_parameters(s, p3)
    } else {
        Some((p3, Seq::<bool>::empty()))
    })->Some_0;
    let (_l, p5, o5) = (if nal != 0 || vcl != 0 {
        copy_u(s, p4, 1)
    } else {
        Some((0u32, p4, Seq::<bool>::empty()))
    })->Some_0;
    let (_ps, p6, o6) = copy_u(s, p5, 1)->Some_0;
    let o = vui_hrd(s, p)->Some_0.1;
    assert(o == o1 + o2 + o3 + o4 + o5 + o6);
    assert(o1 + o2 + o3 + o4 + o5 + o6 =~= Seq::<bool>::empty() + o1 + (o2 + o3 + o4 + o5 + o6));
    lemma_bits_at_piece(s2, q, Seq::<bool>::empty(), o1, (o2 + o3 + o4 + o5 + o6));
    assert(o1 + o2 + o3 + o4 + o5 + o6 =~= (o1) + o2 + (o3 + o4 + o5 + o6));
    lemma_bits_at_piece(s2, q, (o1), o2, (o3 + o4 + o5 + o6));
    assert(o1 + o2 + o3 + o4 + o5 + o6 =~= (o1 + o2) + o3 + (o4 + o5 + o6));
    lemma_bits_at_piece(s2, q, (o1 + o2), o3, (o4 + o5 + o6));
    assert(o1 + o2 + o3 + o4 + o5 + o6 =~= (o1 + o2 + o3) + o4 + (o5 + o6));
    lemma_bits_at_piece(s2, q, (o1 + o2 + o3), o4, (o5 + o6));
    assert(o1 + o2 + o3 + o4 + o5 + o6 =~= (o1 + o2 + o3 + o4) + o5 + (o6));
    lemma_bits_at_piece(s2, q, (o1 + o2 + o3 + o4), o5, (o6));
    assert(o1 + o2 + o3 + o4 + o5 + o6 =~= (o1 + o2 + o3 + o4 + o5) + o6 + Seq::<bool>::empty());
    lemma_bits_at_piece(s2, q, (o1 + o2 + o3 + o4 + o5), o6, Seq::<bool>::empty());
    lemma_copy_u_reread(s, p, 1, s2, q);
    if nal != 0 {
        lemma_hrd_parameters_reread(s, p1, s2, q + o1.len());
    }
    lemma_copy_u_reread(s, p2, 1, s2, q + o1.len() + o2.len());
    if vcl != 0 {
        lemma_hrd_parameters_reread(s, p3, s2, q + o1.len() + o2.len() + o3.len());
    }
    if nal != 0 || vcl != 0 {
        lemma_copy_u_reread(s, p4, 1, s2, q + o1.len() + o2.len() + o3.len() + o4.len());
    }
    lemma_copy_u_reread(s, p5, 1, s2, q + o1.len() + o2.len() + o3.len() + o4.len() + o5.len());
}

/// The single zero bit written for the dropped video signal type reads as "absent".
pub proof fn lemma_signal_skip_reread(s2: Seq<bool>, q: int)
    requires
        bits_at(s2, q, u32_bits(0, 1)),
    ensures
        vui_signal_skip(s2, q) == Some(q + 1),
{
    reveal(vui_signal_skip);
    lemma_bit_facts();
    assert(u32_bits(0, 1)[0] == false);
    assert(s2.subrange(q, q + 1) =~= seq![false]);
    assert(seq![false].drop_last() =~= Seq::<bool>::empty());
    assert(bits_to_u32(Seq::<bool>::empty()) == 0);
    assert(bits_to_u32(seq![false]) == (bits_to_u32(Seq::<bool>::empty()) << 1u32) | 0u32);
    assert(bits_to_u32(seq![false]) == 0);
}


/// The aspect ratio info of the VUI, as `vui_head` copies it.
pub open spec fn vui_aspect(s: Seq<bool>, p: int, aspect: u32) -> Option<(int, Seq<bool>)> {
    if aspect != 0 {
        match copy_u(s, p, 8) {
            Some((idc, q1, r1)) => if idc == 255 {
                match copy_u(s, q1, 16) {
                    Some((_w, q2, r2)) => match copy_u(s, q2, 16) {
                        Some((_h, q3, r3)) => Some((q3, r1 + r2 + r3)),
                        None => None,
                    },
                    None => None,
                }
            } else {
                Some((q1, r1))
            },
            None => None,
        }
    } else {
        Some((p, Seq::empty()))
    }
}

/// Copied aspect ratio info reads back as itself.
pub proof fn lemma_vui_aspect_reread(s: Seq<bool>, p: int, aspect: u32, s2: Seq<bool>, q: int)
    requires
        vui_aspect(s, p, aspect) is Some,
        bits_at(s2, q, vui_aspect(s, p, aspect)->Some_0.1),
    ensures
        rereads(vui_aspect(s, p, aspect), vui_aspect(s2, q, aspect), q),
{
    if aspect != 0 {
        let (idc, q1, r1) = copy_u(s, p, 8)->Some_0;
        if idc == 255 {
            let (_w, q2, r2) = copy_u(s, q1, 16)->Some_0;
            let (_h, q3, r3) = copy_u(s, q2, 16)->Some_0;
            assert(r1 + r2 + r3 =~= Seq::<bool>::empty() + r1 + (r2 + r3));
            lemma_bits_at_piece(s2, q, Seq::<bool>::empty(), r1, (r2 + r3));
            assert(r1 + r2 + r3 =~= (r1) + r2 + (r3));
            lemma_bits_at_piece(s2, q, (r1), r2, (r3));
            assert(r1 + r2 + r3 =~= (r1 + r2) + r3 + Seq::<bool>::empty());
            lemma_bits_at_piece(s2, q, (r1 + r2), r3, Seq::<bool>::empty());
            lemma_copy_u_reread(s, p, 8, s2, q);
            lemma_copy_u_reread(s, q1, 16, s2, q + r1.len());
            lemma_copy_u_reread(s, q2, 16, s2, q + r1.len() + r2.len());
        } else {
            lemma_copy_u_reread(s, p, 8, s2, q);
        }
    }
}

/// The VUI head as the rewriter writes it (video signal type dropped) reads back as itself.
#[verifier::spinoff_prover]
#[verifier::rlimit(80)]
pub proof fn lemma_vui_head_reread(s: Seq<bool>, p: int, s2: Seq<bool>, q: int)
    requires
        vui_head(s, p) is Some,
        bits_at(s2, q, vui_head(s, p)->Some_0.1),
    ensures
        rereads(vui_head(s, p), vui_head(s2, q), q),
{
    reveal(vui_head);
    let (aspect, p1, o1) = copy_u(s, p, 1)->Some_0;
    assert(vui_aspect(s, p1, aspect) is Some);
    let (p2, o2) = vui_aspect(s, p1, aspect)->Some_0;
    let (overscan, p3, o3) = copy_u(s, p2, 1)->Some_0;
    let (_a, p4, o4) = (if overscan != 0 {
        copy_u(s, p3, 1)
    } else {
        Some((0u32, p3, Seq::<bool>::empty()))
    })->Some_0;
    let p5 = vui_signal_skip(s, p4)->Some_0;
    let (p6, o6) = vui_chroma_timing(s, p5)->Some_0;
    let z = u32_bits(0, 1);
    let o = vui_head(s, p)->Some_0.1;
    assert(o == o1 + o2 + o3 + o4 + z + o6);
    assert(o1 + o2 + o3 + o4 + z + o6 =~= Seq::<bool>::empty() + o1 + (o2 + o3 + o4 + z + o6));
    lemma_bits_at_piece(s2, q, Seq::<bool>::empty(), o1, (o2 + o3 + o4 + z + o6));
    assert(o1 + o2 + o3 + o4 + z + o6 =~= (o1) + o2 + (o3 + o4 + z + o6));
    lemma_bits_at_piece(s2, q, (o1), o2, (o3 + o4 + z + o6));
    assert(o1 + o2 + o3 + o4 + z + o6 =~= (o1 + o2) + o3 + (o4 + z + o6));
    lemma_bits_at_piece(s2, q, (o1 + o2), o3, (o4 + z + o6));
    assert(o1 + o2 + o3 + o4 + z + o6 =~= (o1 + o2 + o3) + o4 + (z + o6));
    lemma_bits_at_piece(s2, q, (o1 + o2 + o3), o4, (z + o6));
    assert(o1 + o2 + o3 + o4 + z + o6 =~= (o1 + o2 + o3 + o4) + z + (o6));
    lemma_bits_at_piece(s2, q, (o1 + o2 + o3 + o4), z, (o6));
    assert(o1 + o2 + o3 + o4 + z + o6 =~= (o1 + o2 + o3 + o4 + z) + o6 + Seq::<bool>::empty());
    lemma_bits_at_piece(s2, q, (o1 + o2 + o3 + o4 + z), o6, Seq::<bool>::empty());
    lemma_copy_u_reread(s, p, 1, s2, q);
    lemma_vui_aspect_reread(s, p1, aspect, s2, q + o1.len());
    assert(vui_aspect(s2, q + o1.len(), aspect) == Some((q + o1.len() + o2.len(), o2)));
    lemma_copy_u_reread(s, p2, 1, s2, q + o1.len() + o2.len());
    if overscan != 0 {
        lemma_copy_u_reread(s, p3, 1, s2, q + o1.len() + o2.len() + o3.len());
    }
    lemma_signal_skip_reread(s2, q + o1.len() + o2.len() + o3.len() + o4.len());
    lemma_vui_chroma_timing_reread(s, p5, s2, q + o1.len() + o2.len() + o3.len() + o4.len() + z.len());
}


/// The copied high-profile part reads back as itself.
#[verifier::spinoff_prover]
#[verifier::rlimit(100)]
pub proof fn lemma_sps_high_reread(s: Seq<bool>, p: int, profile_idc: u32, s2: Seq<bool>, q: int)
    requires
        sps_high(s, p, profile_idc) is Some,
        bits_at(s2, q, sps_high(s, p, profile_idc)->Some_0.1),
    ensures
        rereads(sps_high(s, p, profile_idc), sps_high(s2, q, profile_idc), q),
{
    reveal(sps_high);
    if is_high_profile(profile_idc) {
        let (chroma, p1, o1) = copy_ue(s, p)->Some_0;
        let (_c, p2, o2) = (if chroma == 3 {
            copy_u(s, p1, 1)
        } else {
            Some((0u32, p1, Seq::<bool>::empty()))
        })->Some_0;
        let (_l, p3, o3) = copy_ue(s, p2)->Some_0;
        let (_m, p4, o4) = copy_ue(s, p3)->Some_0;
        let (_q, p5, o5) = copy_u(s, p4, 1)->Some_0;
        let (flag, p6, o6) = copy_u(s, p5, 1)->Some_0;
        let count: nat = if chroma != 3 { 8 } else { 12 };
        let (p7, o7) = (if flag != 0 {
            scaling_lists(s, p6, 0, count)
        } else {
            Some((p6, Seq::<bool>::empty()))
        })->Some_0;
        let o = sps_high(s, p, profile_idc)->Some_0.1;
        assert(o == (o1 + o2 + o3 + o4 + o5 + o6) + o7);
        assert(o1 + o2 + o3 + o4 + o5 + o6 + o7 =~= Seq::<bool>::empty() + o1 + (o2 + o3 + o4 + o5 + o6 + o7));
        lemma_bits_at_piece(s2, q, Seq::<bool>::empty(), o1, (o2 + o3 + o4 + o5 + o6 + o7));
        assert(o1 + o2 + o3 + o4 + o5 + o6 + o7 =~= (o1) + o2 + (o3 + o4 + o5 + o6 + o7));
        lemma_bits_at_piece(s2, q, (o1), o2, (o3 + o4 + o5 + o6 + o7));
        assert(o1 + o2 + o3 + o4 + o5 + o6 + o7 =~= (o1 + o2) + o3 + (o4 + o5 + o6 + o7));
        lemma_bits_at_piece(s2, q, (o1 + o2), o3, (o4 + o5 + o6 + o7));
        assert(o1 + o2 + o3 + o4 + o5 + o6 + o7 =~= (o1 + o2 + o3) + o4 + (o5 + o6 + o7));
        lemma_bits_at_piece(s2, q, (o1 + o2 + o3), o4, (o5 + o6 + o7));
        assert(o1 + o2 + o3 + o4 + o5 + o6 + o7 =~= (o1 + o2 + o3 + o4) + o5 + (o6 + o7));
        lemma_bits_at_piece(s2, q, (o1 + o2 + o3 + o4), o5, (o6 + o7));
        assert(o1 + o2 + o3 + o4 + o5 + o6 + o7 =~= (o1 + o2 + o3 + o4 + o5) + o6 + (o7));
        lemma_bits_at_piece(s2, q, (o1 + o2 + o3 + o4 + o5), o6, (o7));
        assert(o1 + o2 + o3 + o4 + o5 + o6 + o7 =~= (o1 + o2 + o3 + o4 + o5 + o6) + o7 + Seq::<bool>::empty());
        lemma_bits_at_piece(s2, q, (o1 + o2 + o3 + o4 + o5 + o6), o7, Seq::<bool>::empty());
        lemma_copy_ue_reread(s, p, s2, q);
        if chroma == 3 {
            lemma_copy_u_reread(s, p1, 1, s2, q + o1.len());
        }
        lemma_copy_ue_reread(s, p2, s2, q + o1.len() + o2.len());
        lemma_copy_ue_reread(s, p3, s2, q + o1.len() + o2.len() + o3.len());
        lemma_copy_u_reread(s, p4, 1, s2, q + o1.len() + o2.len() + o3.len() + o4.len());
        lemma_copy_u_reread(s, p5, 1, s2, q + o1.len() + o2.len() + o3.len() + o4.len() + o5.len());
        if flag != 0 {
            lemma_scaling_lists_reread(s, p6, 0, count, s2, q + o1.len() + o2.len() + o3.len() + o4.len() + o5.len() + o6.len());
        }
        assert((o1 + o2 + o3 + o4 + o5 + o6) + o7 =~= o);
    }
}

/// Five pieces standing one after the other at `q` each stand in their place.
pub proof fn lemma_bits_at_5(
    s2: Seq<bool>,
    q: int,
    o1: Seq<bool>,
    o2: Seq<bool>,
    o3: Seq<bool>,
    o4: Seq<bool>,
    o5: Seq<bool>,
)
    requires
        bits_at(s2, q, o1 + o2 + o3 + o4 + o5),
    ensures
        bits_at(s2, q, o1),
        bits_at(s2, q + o1.len(), o2),
        bits_at(s2, q + o1.len() + o2.len(), o3),
        bits_at(s2, q + o1.len() + o2.len() + o3.len(), o4),
        bits_at(s2, q + o1.len() + o2.len() + o3.len() + o4.len(), o5),
{
    assert(o1 + o2 + o3 + o4 + o5 =~= Seq::<bool>::empty() + o1 + (o2 + o3 + o4 + o5));
    lemma_bits_at_piece(s2, q, Seq::<bool>::empty(), o1, (o2 + o3 + o4 + o5));
    assert(o1 + o2 + o3 + o4 + o5 =~= (o1) + o2 + (o3 + o4 + o5));
    lemma_bits_at_piece(s2, q, (o1), o2, (o3 + o4 + o5));
    assert(o1 + o2 + o3 + o4 + o5 =~= (o1 + o2) + o3 + (o4 + o5));
    lemma_bits_at_piece(s2, q, (o1 + o2), o3, (o4 + o5));
    assert(o1 + o2 + o3 + o4 + o5 =~= (o1 + o2 + o3) + o4 + (o5));
    lemma_bits_at_piece(s2, q, (o1 + o2 + o3), o4, (o5));
    assert(o1 + o2 + o3 + o4 + o5 =~= (o1 + o2 + o3 + o4) + o5 + Seq::<bool>::empty());
    lemma_bits_at_piece(s2, q, (o1 + o2 + o3 + o4), o5, Seq::<bool>::empty());
}

/// The copied frame part reads back as itself, with the same `max_num_ref_frames`.
#[verifier::spinoff_prover]
#[verifier::rlimit(100)]
pub proof fn lemma_sps_frame_reread(s: Seq<bool>, p: int, s2: Seq<bool>, q: int)
    requires
        sps_frame(s, p) is Some,
        bits_at(s2, q, sps_frame(s, p)->Some_0.1),
    ensures
        sps_frame(s2, q) == Some((q + sps_frame(s, p)->Some_0.1.len(), sps_frame(s, p)->Some_0.1, sps_frame(s, p)->Some_0.2)),
{
    reveal(sps_frame);
    let (_log2, p1, o1) = copy_ue(s, p)->Some_0;
    let (p2, o2) = sps_poc(s, p1)->Some_0;
    let (max_ref, p3, o3) = copy_ue(s, p2)->Some_0;
    let (_gaps, p4, o4) = copy_u(s, p3, 1)->Some_0;
    let (_w, p5, o5) = copy_ue(s, p4)->Some_0;
    let (_h, p6, o6) = copy_ue(s, p5)->Some_0;
    let (fmo, p7, o7) = copy_u(s, p6, 1)->Some_0;
    let (_a, p8, o8) = (if fmo == 0 {
        copy_u(s, p7, 1)
    } else {
        Some((0u32, p7, Seq::<bool>::empty()))
    })->Some_0;
    let (_d, p9, o9) = copy_u(s, p8, 1)->Some_0;
    let (p10, o10) = sps_cropping(s, p9)->Some_0;
    let o = sps_frame(s, p)->Some_0.1;
    let x = o1 + o2 + o3 + o4 + o5;
    let y = o6 + o7 + o8 + o9 + o10;
    assert(o == o1 + o2 + o3 + o4 + o5 + o6 + o7 + o8 + o9 + o10);
    assert(o =~= x + y);
    lemma_bits_at_split(s2, q, x, y);
    lemma_bits_at_5(s2, q, o1, o2, o3, o4, o5);
    lemma_bits_at_5(s2, q + x.len(), o6, o7, o8, o9, o10);
    lemma_copy_ue_reread(s, p, s2, q);
    lemma_sps_poc_reread(s, p1, s2, q + o1.len());
    lemma_copy_ue_reread(s, p2, s2, q + o1.len() + o2.len());
    lemma_copy_u_reread(s, p3, 1, s2, q + o1.len() + o2.len() + o3.len());
    lemma_copy_ue_reread(s, p4, s2, q + o1.len() + o2.len() + o3.len() + o4.len());
    lemma_copy_ue_reread(s, p5, s2, q + o1.len() + o2.len() + o3.len() + o4.len() + o5.len());
    lemma_copy_u_reread(s, p6, 1, s2, q + o1.len() + o2.len() + o3.len() + o4.len() + o5.len() + o6.len());
    if fmo == 0 {
        lemma_copy_u_reread(s, p7, 1, s2, q + o1.len() + o2.len() + o3.len() + o4.len() + o5.len() + o6.len() + o7.len());
    }
    lemma_copy_u_reread(s, p8, 1, s2, q + o1.len() + o2.len() + o3.len() + o4.len() + o5.len() + o6.len() + o7.len() + o8.len());
    lemma_sps_cropping_reread(s, p9, s2, q + o1.len() + o2.len() + o3.len() + o4.len() + o5.len() + o6.len() + o7.len() + o8.len() + o9.len());
}


/// The two reordering fields of a bitstream restriction that starts at `p` (after
/// its presence flag): `max_num_reorder_frames` and `max_dec_frame_buffering`.
pub open spec fn restriction_fields(s: Seq<bool>, p: int) -> Option<(u32, u32)> {
    match copy_u(s, p, 1) {
        Some((_m, p1, _o1)) => match copy_ue(s, p1) {
            Some((_a, p2, _o2)) => match copy_ue(s, p2) {
                Some((_b, p3, _o3)) => match copy_ue(s, p3) {
                    Some((_c, p4, _o4)) => match copy_ue(s, p4) {
                        Some((_d, p5, _o5)) => match ue_at(s, p5) {
                            Some((reorder, p6)) => match ue_at(s, p6) {
                                Some((buffering, _p7)) => Some((reorder, buffering)),
                                None => None,
                            },
                            None => None,
                        },
                        None => None,
                    },
                    None => None,
                },
                None => None,
            },
            None => None,
        },
        None => None,
    }
}

/// The reordering fields of a VUI that starts at `p` (at its presence flag):
/// `Some(None)` when there is no VUI or no bitstream restriction.
pub open spec fn vui_reordering(s: Seq<bool>, p: int) -> Option<Option<(u32, u32)>> {
    match read_u(s, p, 1) {
        Some((present, p1)) => if present == 0 {
            Some(None)
        } else {
            match vui_head(s, p1) {
                Some((p2, _o2)) => match vui_hrd(s, p2) {
                    Some((p3, _o3)) => match read_u(s, p3, 1) {
                        Some((restricted, p4)) => if restricted == 0 {
                            Some(None)
                        } else {
                            match restriction_fields(s, p4) {
                                Some(f) => Some(Some(f)),
                                None => None,
                            }
                        },
                        None => None,
                    },
                    None => None,
                },
                None => None,
            }
        },
        None => None,
    }
}

/// What the payload bits of an SPS say of reordering: `max_num_ref_frames`, and the
/// bitstream restriction's `max_num_reorder_frames` and `max_dec_frame_buffering`
/// when the VUI carries one.
pub open spec fn sps_reordering(s: Seq<bool>) -> Option<(u32, Option<(u32, u32)>)> {
    match copy_u(s, 0, 8) {
        Some((profile_idc, p1, _o1)) => match copy_u(s, p1, 8) {
            Some((_constraints, p2, _o2)) => match copy_u(s, p2, 8) {
                Some((_level, p3, _o3)) => match copy_ue(s, p3) {
                    Some((_id, p4, _o4)) => match sps_high(s, p4, profile_idc) {
                        Some((p5, _o5)) => match sps_frame(s, p5) {
                            Some((p6, _o6, max_ref)) => match vui_reordering(s, p6) {
                                Some(f) => Some((max_ref, f)),
                                None => None,
                            },
                            None => None,
                        },
                        None => None,
                    },
                    None => None,
                },
                None => None,
            },
            None => None,
        },
        None => None,
    }
}

/// Reading an unsigned Exp-Golomb code standing at `q`.
pub proof fn lemma_ue_at_code(s2: Seq<bool>, q: int, v: u32)
    requires
        v < 0xffff_ffff,
        bits_at(s2, q, ue_bits(v)),
    ensures
        ue_at(s2, q) == Some((v, q + ue_bits(v).len())),
        copy_ue(s2, q) == Some((v, q + ue_bits(v).len(), ue_bits(v))),
{
    let code = ue_bits(v);
    let pre = s2.subrange(0, q);
    let rest = s2.subrange(q + code.len(), s2.len() as int);
    assert(s2 =~= pre + code + rest);
    lemma_ue_roundtrip(pre, v, rest);
}

/// A written bitstream restriction, read back: one flag bit, four codes, then
/// reordering 0 and buffering `m`.
pub proof fn lemma_restriction_fields_written(
    s2: Seq<bool>,
    q: int,
    a1: Seq<bool>,
    v2: u32,
    v3: u32,
    v4: u32,
    v5: u32,
    m: u32,
)
    requires
        a1.len() == 1,
        v2 < 0xffff_ffff,
        v3 < 0xffff_ffff,
        v4 < 0xffff_ffff,
        v5 < 0xffff_ffff,
        m < 0xffff_ffff,
        bits_at(s2, q, a1 + ue_bits(v2) + ue_bits(v3) + ue_bits(v4) + ue_bits(v5) + ue_bits(0) + ue_bits(m)),
    ensures
        restriction_fields(s2, q) == Some((0u32, m)),
{
    let x = a1 + ue_bits(v2) + ue_bits(v3) + ue_bits(v4) + ue_bits(v5);
    let y = ue_bits(0) + ue_bits(m);
    assert(a1 + ue_bits(v2) + ue_bits(v3) + ue_bits(v4) + ue_bits(v5) + ue_bits(0) + ue_bits(m) =~= x + y);
    lemma_bits_at_split(s2, q, x, y);
    lemma_bits_at_5(s2, q, a1, ue_bits(v2), ue_bits(v3), ue_bits(v4), ue_bits(v5));
    lemma_bits_at_split(s2, q + x.len(), ue_bits(0), ue_bits(m));
    let q1 = q + 1;
    let q2 = q1 + ue_bits(v2).len();
    let q3 = q2 + ue_bits(v3).len();
    let q4 = q3 + ue_bits(v4).len();
    let q5 = q4 + ue_bits(v5).len();
    lemma_ue_at_code(s2, q1, v2);
    lemma_ue_at_code(s2, q2, v3);
    lemma_ue_at_code(s2, q3, v4);
    lemma_ue_at_code(s2, q4, v5);
    lemma_ue_at_code(s2, q5, 0);
    lemma_ue_at_code(s2, q5 + ue_bits(0).len(), m);
}


/// A one-bit flag of value `v` (0 or 1) standing at `q` reads as `v`.
pub proof fn lemma_read_flag(s2: Seq<bool>, q: int, v: u32)
    requires
        v <= 1,
        bits_at(s2, q, u32_bits(v, 1)),
    ensures
        read_u(s2, q, 1) == Some((v, q + 1)),
        copy_u(s2, q, 1) == Some((v, q + 1, u32_bits(v, 1))),
{
    lemma_bit_facts();
    let b = s2.subrange(q, q + 1);
    assert(b[0] == u32_bits(v, 1)[0]);
    assert(b.drop_last() =~= Seq::<bool>::empty());
    assert(bits_to_u32(Seq::<bool>::empty()) == 0);
    assert(bits_to_u32(b) == (bits_to_u32(Seq::<bool>::empty()) << 1u32) | (if b[0] { 1u32 } else { 0u32 }));
}

/// Eight zero bits read as a VUI with nothing in it up to the bitstream restriction
/// flag: no aspect ratio, overscan, video signal, chroma location, timing or HRD, and
/// no fixed picture structure.
#[verifier::spinoff_prover]
#[verifier::rlimit(60)]
pub proof fn lemma_empty_vui_read(s2: Seq<bool>, q: int)
    requires
        bits_at(s2, q, u32_bits(0, 2) + u32_bits(0, 1) + u32_bits(0, 5)),
    ensures
        vui_head(s2, q) is Some && vui_head(s2, q)->Some_0.0 == q + 5,
        vui_hrd(s2, q + 5) is Some && vui_hrd(s2, q + 5)->Some_0.0 == q + 8,
        vui_head(s2, q)->Some_0.1 + vui_hrd(s2, q + 5)->Some_0.1 == u32_bits(0, 2) + u32_bits(0, 1) + u32_bits(0, 5),
{
    reveal(vui_head);
    reveal(vui_chroma_timing);
    reveal(vui_hrd);
    lemma_bit_facts();
    let z = u32_bits(0, 2) + u32_bits(0, 1) + u32_bits(0, 5);
    assert forall|i: int| 0 <= i < 8 implies #[trigger] bits_at(s2, q + i, u32_bits(0, 1)) by {
        assert(z[i] == false);
        assert(s2[q + i] == z[i]);
        assert(s2.subrange(q + i, q + i + 1) =~= u32_bits(0, 1));
    }
    assert(bits_at(s2, q + 0, u32_bits(0, 1)));
    assert(q + 0 == q);
    lemma_read_flag(s2, q, 0);
    lemma_read_flag(s2, q + 1, 0);
    lemma_signal_skip_reread(s2, q + 2);
    lemma_read_flag(s2, q + 3, 0);
    lemma_read_flag(s2, q + 4, 0);
    lemma_read_flag(s2, q + 5, 0);
    lemma_read_flag(s2, q + 6, 0);
    lemma_read_flag(s2, q + 7, 0);
    assert(vui_aspect(s2, q + 1, 0) == Some((q + 1, Seq::<bool>::empty())));
    let h = vui_head(s2, q)->Some_0.1;
    let d = vui_hrd(s2, q + 5)->Some_0.1;
    assert(u32_bits(0, 1)[0] == false);
    assert(h =~= u32_bits(0, 1) + Seq::<bool>::empty() + u32_bits(0, 1) + Seq::<bool>::empty() + u32_bits(0, 1)
        + (u32_bits(0, 1) + Seq::<bool>::empty() + u32_bits(0, 1)));
    assert(d =~= u32_bits(0, 1) + Seq::<bool>::empty() + u32_bits(0, 1) + Seq::<bool>::empty() + Seq::<bool>::empty()
        + u32_bits(0, 1));
    assert forall|i: int| 0 <= i < 8 implies #[trigger] z[i] == false by {}
    assert(h + d =~= z);
}


/// The VUI as the rewriter writes it reads back with a bitstream restriction of
/// reordering 0 and buffering `m`.
#[verifier::spinoff_prover]
#[verifier::rlimit(100)]
pub proof fn lemma_vui_reordering_written(s: Seq<bool>, p: int, m: u32, s2: Seq<bool>, q: int)
    requires
        m < 0xffff_ffff,
        sps_vui(s, p, m) is Some,
        bits_at(s2, q, sps_vui(s, p, m)->Some_0.1),
    ensures
        vui_reordering(s2, q) == Some(Some((0u32, m))),
{
    reveal(sps_vui);
    let (present, p1) = read_u(s, p, 1)->Some_0;
    let o = sps_vui(s, p, m)->Some_0.1;
    let one = u32_bits(1, 1);
    if present == 0 {
        let z = u32_bits(0, 2) + u32_bits(0, 1) + u32_bits(0, 5);
        let d = default_restriction(m);
        assert(o == one + (u32_bits(0, 2) + u32_bits(0, 1) + u32_bits(0, 5) + u32_bits(1, 1) + d));
        assert(o =~= one + z + (one + d));
        lemma_bits_at_piece(s2, q, one, z, one + d);
        lemma_bits_at_split(s2, q + 1 + z.len(), one, d);
        lemma_read_flag(s2, q, 1);
        lemma_empty_vui_read(s2, q + 1);
        lemma_read_flag(s2, q + 9, 1);
        lemma_restriction_fields_written(s2, q + 10, one, 2, 1, 16, 16, m);
    } else {
        reveal(vui_restriction);
        let (p2, o2) = vui_head(s, p1)->Some_0;
        let (p3, o3) = vui_hrd(s, p2)->Some_0;
        let r = vui_restriction(s, p3, m)->Some_0.1;
        assert(o == one + (o2 + o3 + r));
        assert(o =~= one + o2 + (o3 + r));
        lemma_bits_at_piece(s2, q, one, o2, o3 + r);
        lemma_bits_at_split(s2, q + 1 + o2.len(), o3, r);
        lemma_read_flag(s2, q, 1);
        lemma_vui_head_reread(s, p1, s2, q + 1);
        lemma_vui_hrd_reread(s, p2, s2, q + 1 + o2.len());
        let q4 = q + 1 + o2.len() + o3.len();
        let (rp, p4) = read_u(s, p3, 1)->Some_0;
        if rp == 0 {
            let d = default_restriction(m);
            assert(r == one + d);
            lemma_bits_at_split(s2, q4, one, d);
            lemma_read_flag(s2, q4, 1);
            lemma_restriction_fields_written(s2, q4 + 1, one, 2, 1, 16, 16, m);
        } else {
            let (_mv, x1, y1) = copy_u(s, p4, 1)->Some_0;
            let (a, x2, y2) = copy_ue(s, x1)->Some_0;
            let (b, x3, y3) = copy_ue(s, x2)->Some_0;
            let (c, x4, y4) = copy_ue(s, x3)->Some_0;
            let (e, x5, y5) = copy_ue(s, x4)->Some_0;
            lemma_ue_at_bound(s, x1);
            lemma_ue_at_bound(s, x2);
            lemma_ue_at_bound(s, x3);
            lemma_ue_at_bound(s, x4);
            let rest = y1 + y2 + y3 + y4 + y5 + ue_bits(0) + ue_bits(m);
            assert(r == one + rest);
            lemma_bits_at_split(s2, q4, one, rest);
            lemma_read_flag(s2, q4, 1);
            lemma_restriction_fields_written(s2, q4 + 1, y1, a, b, c, e, m);
        }
    }
}


/// `max_num_ref_frames` as the frame part reads it can be written back.
proof fn lemma_sps_frame_bound(s: Seq<bool>, p: int)
    requires
        sps_frame(s, p) is Some,
    ensures
        sps_frame(s, p)->Some_0.2 < 0xffff_ffff,
{
    reveal(sps_frame);
    let (_log2, p1, _o1) = copy_ue(s, p)->Some_0;
    let (p2, _o2) = sps_poc(s, p1)->Some_0;
    lemma_ue_at_bound(s, p2);
}

/// Where the rewriter reads a VUI through, the reordering fields read through too.
proof fn lemma_vui_reordering_of_input(s: Seq<bool>, p: int, m: u32)
    requires
        sps_vui(s, p, m) is Some,
    ensures
        vui_reordering(s, p) is Some,
{
    reveal(sps_vui);
    reveal(vui_restriction);
}

/// The rewritten SPS payload, followed by anything, reads back with the input's
/// `max_num_ref_frames` and a bitstream restriction of reordering 0 and buffering
/// `max_num_ref_frames`.
#[verifier::spinoff_prover]
#[verifier::rlimit(100)]
pub proof fn lemma_sps_bits_reordering(s: Seq<bool>, t: Seq<bool>)
    requires
        sps_rewrite_bits(s) is Some,
    ensures
        sps_reordering(s) is Some,
        sps_reordering(sps_rewrite_bits(s)->Some_0 + t) == Some(
            (sps_reordering(s)->Some_0.0, Some((0u32, sps_reordering(s)->Some_0.0))),
        ),
{
    reveal(sps_rewrite_bits);
    let (profile_idc, p1, o1) = copy_u(s, 0, 8)->Some_0;
    let (_c, p2, o2) = copy_u(s, p1, 8)->Some_0;
    let (_l, p3, o3) = copy_u(s, p2, 8)->Some_0;
    let (_i, p4, o4) = copy_ue(s, p3)->Some_0;
    let (p5, o5) = sps_high(s, p4, profile_idc)->Some_0;
    let (p6, o6, m) = sps_frame(s, p5)->Some_0;
    let (_p7, o7) = sps_vui(s, p6, m)->Some_0;
    lemma_sps_frame_bound(s, p5);
    lemma_vui_reordering_of_input(s, p6, m);
    let o = sps_rewrite_bits(s)->Some_0;
    assert(o == o1 + o2 + o3 + o4 + o5 + o6 + o7);
    let s2 = o + t;
    assert(s2.subrange(0, o.len() as int) =~= o);
    assert(bits_at(s2, 0, o));
    let x = o1 + o2 + o3 + o4 + o5;
    assert(o =~= x + o6 + o7);
    lemma_bits_at_piece(s2, 0, x, o6, o7);
    lemma_bits_at_5(s2, 0, o1, o2, o3, o4, o5);
    lemma_copy_u_reread(s, 0, 8, s2, 0);
    lemma_copy_u_reread(s, p1, 8, s2, o1.len() as int);
    lemma_copy_u_reread(s, p2, 8, s2, (o1.len() + o2.len()) as int);
    lemma_copy_ue_reread(s, p3, s2, (o1.len() + o2.len() + o3.len()) as int);
    lemma_sps_high_reread(s, p4, profile_idc, s2, (o1.len() + o2.len() + o3.len() + o4.len()) as int);
    lemma_sps_frame_reread(s, p5, s2, x.len() as int);
    lemma_vui_reordering_written(s, p6, m, s2, (x.len() + o6.len()) as int);
}


/// Padding to a byte boundary adds zero bits up to a multiple of 8.
proof fn lemma_pad_to_byte(x: Seq<bool>)
    ensures
        pad_to_byte(x) == x + zeros(((8 - x.len() % 8) % 8) as nat),
        pad_to_byte(x).len() % 8 == 0,
        pad_to_byte(x).len() >= x.len(),
{
}

/// The first byte of the bytes of some bits is the number its first 8 bits write.
proof fn lemma_first_byte(pbits: Seq<bool>, h: u8)
    requires
        pbits.len() >= 8,
        pbits.subrange(0, 8) == u32_bits(h as u32, 8),
    ensures
        bits_to_bytes(pbits).len() >= 1,
        bits_to_bytes(pbits)[0] == h,
{
    lemma_byte_of_u32(h as u32);
    lemma_byte_bits_roundtrip(h);
    assert(bits_to_bytes(pbits).len() == pbits.len() / 8);
}

/// The bits of all bytes but the first are the bits after the first 8.
proof fn lemma_tail_bits(b: Seq<u8>)
    requires
        b.len() >= 1,
    ensures
        bytes_to_bits(b.subrange(1, b.len() as int)) == bytes_to_bits(b).subrange(8, bytes_to_bits(b).len() as int),
{
    let l = bytes_to_bits(b.subrange(1, b.len() as int));
    let r = bytes_to_bits(b).subrange(8, bytes_to_bits(b).len() as int);
    assert forall|i: int| 0 <= i < l.len() implies l[i] == r[i] by {
        assert((8 + i) / 8 == 1 + i / 8 && (8 + i) % 8 == i % 8);
    }
    assert(l =~= r);
}

/// The payload bits of an escaped unit behind a non-zero header byte are the bits
/// of the bytes after the header.
proof fn lemma_escaped_payload(b: Seq<u8>)
    requires
        b.len() >= 1,
        b[0] != 0,
    ensures
        escape(b).len() > 0,
        escape(b)[0] == b[0],
        sps_payload_bits(escape(b)) == bytes_to_bits(b).subrange(8, bytes_to_bits(b).len() as int),
{
    let out = escape(b);
    lemma_escape_first(b);
    lemma_unescape_escape(b);
    lemma_unescape_after_first(out);
    lemma_tail_bits(b);
}

/// A rewritten SPS NAL unit keeps its header byte and, read again, says that no
/// frame is reordered: its VUI carries a bitstream restriction with
/// `max_num_reorder_frames = 0` and `max_dec_frame_buffering` equal to the input's
/// `max_num_ref_frames`.
pub proof fn lemma_rewritten_sps_has_no_reordering(nalu: Seq<u8>)
    requires
        nalu.len() > 0,
        nalu[0] != 0,
        spec_rewrite_sps_vui(nalu) is Some,
    ensures
        ({
            let out = spec_rewrite_sps_vui(nalu)->Some_0;
            &&& out.len() > 0
            &&& out[0] == nalu[0]
            &&& sps_reordering(sps_payload_bits(nalu)) is Some
            &&& sps_reordering(sps_payload_bits(out)) == Some(
                (
                    sps_reordering(sps_payload_bits(nalu))->Some_0.0,
                    Some((0u32, sps_reordering(sps_payload_bits(nalu))->Some_0.0)),
                ),
            )
        }),
{
    let h = nalu[0];
    let s = sps_payload_bits(nalu);
    let body = sps_rewrite_bits(s)->Some_0;
    let x = u32_bits(h as u32, 8) + body + u32_bits(1, 1);
    let k = ((8 - x.len() % 8) % 8) as nat;
    let pbits = pad_to_byte(x);
    lemma_pad_to_byte(x);
    let b = bits_to_bytes(pbits);
    assert(pbits.subrange(0, 8) =~= u32_bits(h as u32, 8));
    lemma_first_byte(pbits, h);
    lemma_bytes_to_bits_of_bits(pbits);
    lemma_escaped_payload(b);
    let t = u32_bits(1, 1) + zeros(k);
    assert(pbits.subrange(8, pbits.len() as int) =~= body + t);
    lemma_sps_bits_reordering(s, t);
}


/// A written bitstream restriction (the flag, then a 1-bit field, four codes,
/// reordering 0 and buffering `m`) is rewritten as itself.
#[verifier::spinoff_prover]
#[verifier::rlimit(60)]
proof fn lemma_restriction_reread(
    s2: Seq<bool>,
    q: int,
    a1: Seq<bool>,
    v2: u32,
    v3: u32,
    v4: u32,
    v5: u32,
    m: u32,
)
    requires
        v2 < 0xffff_ffff,
        v3 < 0xffff_ffff,
        v4 < 0xffff_ffff,
        v5 < 0xffff_ffff,
        m < 0xffff_ffff,
        copy_u(s2, q + 1, 1) is Some,
        copy_u(s2, q + 1, 1)->Some_0.1 == q + 2,
        copy_u(s2, q + 1, 1)->Some_0.2 == a1,
        a1.len() == 1,
        bits_at(
            s2,
            q,
            u32_bits(1, 1) + (a1 + ue_bits(v2) + ue_bits(v3) + ue_bits(v4) + ue_bits(v5) + ue_bits(0) + ue_bits(m)),
        ),
    ensures
        ({
            let o = u32_bits(1, 1) + (a1 + ue_bits(v2) + ue_bits(v3) + ue_bits(v4) + ue_bits(v5) + ue_bits(0)
                + ue_bits(m));
            vui_restriction(s2, q, m) == Some((q + o.len(), o))
        }),
{
    reveal(vui_restriction);
    let one = u32_bits(1, 1);
    let rest = a1 + ue_bits(v2) + ue_bits(v3) + ue_bits(v4) + ue_bits(v5) + ue_bits(0) + ue_bits(m);
    lemma_bits_at_split(s2, q, one, rest);
    lemma_read_flag(s2, q, 1);
    let x = a1 + ue_bits(v2) + ue_bits(v3) + ue_bits(v4) + ue_bits(v5);
    let y = ue_bits(0) + ue_bits(m);
    assert(rest =~= x + y);
    lemma_bits_at_split(s2, q + 1, x, y);
    lemma_bits_at_5(s2, q + 1, a1, ue_bits(v2), ue_bits(v3), ue_bits(v4), ue_bits(v5));
    lemma_bits_at_split(s2, q + 1 + x.len(), ue_bits(0), ue_bits(m));
    let q1 = q + 2;
    let q2 = q1 + ue_bits(v2).len();
    let q3 = q2 + ue_bits(v3).len();
    let q4 = q3 + ue_bits(v4).len();
    let q5 = q4 + ue_bits(v5).len();
    lemma_ue_at_code(s2, q1, v2);
    lemma_ue_at_code(s2, q2, v3);
    lemma_ue_at_code(s2, q3, v4);
    lemma_ue_at_code(s2, q4, v5);
    lemma_ue_at_code(s2, q5, 0);
    lemma_ue_at_code(s2, q5 + ue_bits(0).len(), m);
    assert(one + rest =~= one + (a1 + ue_bits(v2) + ue_bits(v3) + ue_bits(v4) + ue_bits(v5) + ue_bits(0)
        + ue_bits(m)));
}

/// The VUI as the rewriter writes it is rewritten as itself.
#[verifier::spinoff_prover]
#[verifier::rlimit(100)]
proof fn lemma_sps_vui_reread(s: Seq<bool>, p: int, m: u32, s2: Seq<bool>, q: int)
    requires
        m < 0xffff_ffff,
        sps_vui(s, p, m) is Some,
        bits_at(s2, q, sps_vui(s, p, m)->Some_0.1),
    ensures
        rereads(sps_vui(s, p, m), sps_vui(s2, q, m), q),
{
    reveal(sps_vui);
    let (present, p1) = read_u(s, p, 1)->Some_0;
    let o = sps_vui(s, p, m)->Some_0.1;
    let one = u32_bits(1, 1);
    lemma_bit_facts();
    if present == 0 {
        let z = u32_bits(0, 2) + u32_bits(0, 1) + u32_bits(0, 5);
        let d = default_restriction(m);
        assert(o == one + (u32_bits(0, 2) + u32_bits(0, 1) + u32_bits(0, 5) + u32_bits(1, 1) + d));
        assert(o =~= one + z + (one + d));
        lemma_bits_at_piece(s2, q, one, z, one + d);
        lemma_read_flag(s2, q, 1);
        lemma_empty_vui_read(s2, q + 1);
        let dr = one + (one + ue_bits(2) + ue_bits(1) + ue_bits(16) + ue_bits(16) + ue_bits(0) + ue_bits(m));
        assert(one + d =~= dr);
        let rest = ue_bits(2) + ue_bits(1) + ue_bits(16) + ue_bits(16) + ue_bits(0) + ue_bits(m);
        assert(d =~= one + rest);
        assert(z.len() == 8);
        lemma_bits_at_split(s2, q + 9, one, d);
        lemma_bits_at_split(s2, q + 10, one, rest);
        lemma_read_flag(s2, q + 10, 1);
        lemma_restriction_reread(s2, q + 9, one, 2, 1, 16, 16, m);
        let h = vui_head(s2, q + 1)->Some_0.1;
        let hd = vui_hrd(s2, q + 6)->Some_0.1;
        assert(one + (h + hd + dr) =~= o);
    } else {
        reveal(vui_restriction);
        let (p2, o2) = vui_head(s, p1)->Some_0;
        let (p3, o3) = vui_hrd(s, p2)->Some_0;
        let r = vui_restriction(s, p3, m)->Some_0.1;
        assert(o == one + (o2 + o3 + r));
        assert(o =~= one + o2 + (o3 + r));
        lemma_bits_at_piece(s2, q, one, o2, o3 + r);
        lemma_bits_at_split(s2, q + 1 + o2.len(), o3, r);
        lemma_read_flag(s2, q, 1);
        lemma_vui_head_reread(s, p1, s2, q + 1);
        lemma_vui_hrd_reread(s, p2, s2, q + 1 + o2.len());
        let q4 = q + 1 + o2.len() + o3.len();
        let (rp, p4) = read_u(s, p3, 1)->Some_0;
        if rp == 0 {
            let d = default_restriction(m);
            let rest = ue_bits(2) + ue_bits(1) + ue_bits(16) + ue_bits(16) + ue_bits(0) + ue_bits(m);
            assert(r == one + d);
            assert(d =~= one + rest);
            lemma_bits_at_split(s2, q4, one, one + rest);
            lemma_bits_at_split(s2, q4 + 1, one, rest);
            lemma_read_flag(s2, q4 + 1, 1);
            lemma_restriction_reread(s2, q4, one, 2, 1, 16, 16, m);
            assert(one + (one + ue_bits(2) + ue_bits(1) + ue_bits(16) + ue_bits(16) + ue_bits(0) + ue_bits(m)) =~= r);
        } else {
            let (_mv, x1, y1) = copy_u(s, p4, 1)->Some_0;
            let (a, x2, y2) = copy_ue(s, x1)->Some_0;
            let (b, x3, y3) = copy_ue(s, x2)->Some_0;
            let (c, x4, y4) = copy_ue(s, x3)->Some_0;
            let (e, x5, y5) = copy_ue(s, x4)->Some_0;
            lemma_ue_at_bound(s, x1);
            lemma_ue_at_bound(s, x2);
            lemma_ue_at_bound(s, x3);
            lemma_ue_at_bound(s, x4);
            let rest = y1 + y2 + y3 + y4 + y5 + ue_bits(0) + ue_bits(m);
            assert(r == one + rest);
            lemma_bits_at_split(s2, q4, one, rest);
            assert(rest =~= y1 + (y2 + y3 + y4 + y5 + ue_bits(0) + ue_bits(m)));
            lemma_bits_at_split(s2, q4 + 1, y1, y2 + y3 + y4 + y5 + ue_bits(0) + ue_bits(m));
            lemma_copy_u_reread(s, p4, 1, s2, q4 + 1);
            lemma_restriction_reread(s2, q4, y1, a, b, c, e, m);
        }
    }
}

/// The rewritten SPS payload, followed by anything, is rewritten as itself.
#[verifier::spinoff_prover]
#[verifier::rlimit(100)]
proof fn lemma_sps_bits_reread(s: Seq<bool>, t: Seq<bool>)
    requires
        sps_rewrite_bits(s) is Some,
    ensures
        sps_rewrite_bits(sps_rewrite_bits(s)->Some_0 + t) == sps_rewrite_bits(s),
{
    reveal(sps_rewrite_bits);
    let (profile_idc, p1, o1) = copy_u(s, 0, 8)->Some_0;
    let (_c, p2, o2) = copy_u(s, p1, 8)->Some_0;
    let (_l, p3, o3) = copy_u(s, p2, 8)->Some_0;
    let (_i, p4, o4) = copy_ue(s, p3)->Some_0;
    let (p5, o5) = sps_high(s, p4, profile_idc)->Some_0;
    let (p6, o6, m) = sps_frame(s, p5)->Some_0;
    let (_p7, o7) = sps_vui(s, p6, m)->Some_0;
    lemma_sps_frame_bound(s, p5);
    let o = sps_rewrite_bits(s)->Some_0;
    assert(o == o1 + o2 + o3 + o4 + o5 + o6 + o7);
    let s2 = o + t;
    assert(s2.subrange(0, o.len() as int) =~= o);
    assert(bits_at(s2, 0, o));
    let x = o1 + o2 + o3 + o4 + o5;
    assert(o =~= x + o6 + o7);
    lemma_bits_at_piece(s2, 0, x, o6, o7);
    lemma_bits_at_5(s2, 0, o1, o2, o3, o4, o5);
    lemma_copy_u_reread(s, 0, 8, s2, 0);
    lemma_copy_u_reread(s, p1, 8, s2, o1.len() as int);
    lemma_copy_u_reread(s, p2, 8, s2, (o1.len() + o2.len()) as int);
    lemma_copy_ue_reread(s, p3, s2, (o1.len() + o2.len() + o3.len()) as int);
    lemma_sps_high_reread(s, p4, profile_idc, s2, (o1.len() + o2.len() + o3.len() + o4.len()) as int);
    lemma_sps_frame_reread(s, p5, s2, x.len() as int);
    lemma_sps_vui_reread(s, p6, m, s2, (x.len() + o6.len()) as int);
}

/// Rewriting an SPS NAL unit a second time changes nothing more: the rewritten
/// unit is its own rewrite.
pub proof fn lemma_rewrite_sps_idempotent(nalu: Seq<u8>)
    requires
        nalu.len() > 0,
        nalu[0] != 0,
        spec_rewrite_sps_vui(nalu) is Some,
    ensures
        spec_rewrite_sps_vui(spec_rewrite_sps_vui(nalu)->Some_0) == spec_rewrite_sps_vui(nalu),
{
    let h = nalu[0];
    let s = sps_payload_bits(nalu);
    let body = sps_rewrite_bits(s)->Some_0;
    let x = u32_bits(h as u32, 8) + body + u32_bits(1, 1);
    let k = ((8 - x.len() % 8) % 8) as nat;
    let pbits = pad_to_byte(x);
    lemma_pad_to_byte(x);
    let b = bits_to_bytes(pbits);
    assert(pbits.subrange(0, 8) =~= u32_bits(h as u32, 8));
    lemma_first_byte(pbits, h);
    lemma_bytes_to_bits_of_bits(pbits);
    lemma_escaped_payload(b);
    let t = u32_bits(1, 1) + zeros(k);
    assert(pbits.subrange(8, pbits.len() as int) =~= body + t);
    lemma_sps_bits_reread(s, t);
}
} // verus!

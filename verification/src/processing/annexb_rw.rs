//! Bit-level reader and writer for Annex-B payloads (RBSP), with
//! emulation-prevention bytes handled on the fly.
use vstd::prelude::*;
use super::bits::{
    bits_to_bytes, byte_bits, lemma_byte_of_u32, lemma_bytes_to_bits_push,
    lemma_bits_to_bytes_of_bytes, lemma_pending_insert, lemma_bits_of_u32_bits, lemma_u32_bits_chunk, u32_bits, zeros,
    bits_to_u32, lemma_bits_to_u32_bound, bytes_to_bits, lemma_bits_to_u32_append, lemma_byte_bits_value,
    lemma_bit_facts, lemma_bytes_to_bits_sub, low_mask, lemma_bytes_to_bits_of_bits,
};
use super::escape::{
    ends_in_two_zeros, escape, is_emulation_byte, lemma_unescape_index, lemma_unescape_prefix, lemma_unescape_take_all,
    lemma_unescape_take_step, unescape, lemma_unescape_escape,
};

verus! {

/// Position of the first set bit of `s` at or after `p`.
pub open spec fn first_one(s: Seq<bool>, p: int) -> Option<int>
    decreases s.len() - p,
{
    if p < 0 || p >= s.len() {
        None
    } else if s[p] {
        Some(p)
    } else {
        first_one(s, p + 1)
    }
}

/// The unsigned Exp-Golomb code at bit `p` of `s`: its value and the position after it,
/// when it has fewer than 32 leading zeros and lies wholly inside `s`.
pub open spec fn ue_at(s: Seq<bool>, p: int) -> Option<(u32, int)> {
    match first_one(s, p) {
        Some(q) => {
            let lz = q - p;
            if lz < 32 && q + 1 + lz <= s.len() {
                Some(
                    (
                        ((1u32 << (lz as u32)) + bits_to_u32(s.subrange(q + 1, q + 1 + lz)) - 1) as u32,
                        q + 1 + lz,
                    ),
                )
            } else {
                None
            }
        },
        None => None,
    }
}

/// The signed value an unsigned Exp-Golomb value stands for: even values map to
/// `-(v / 2)`, odd values to `(v + 1) / 2`.
pub open spec fn se_of_ue(v: u32) -> int {
    if v % 2 == 0 {
        -((v / 2) as int)
    } else {
        ((v + 1) / 2) as int
    }
}

/// The signed Exp-Golomb code at bit `p` of `s`.
pub open spec fn se_at(s: Seq<bool>, p: int) -> Option<(int, int)> {
    match ue_at(s, p) {
        Some((v, q)) => Some((se_of_ue(v), q)),
        None => None,
    }
}

/// The set bit `first_one` finds lies at or after `p`, inside `s`.
pub proof fn lemma_first_one_ge(s: Seq<bool>, p: int)
    ensures
        first_one(s, p) is Some ==> (0 <= p <= first_one(s, p)->0 < s.len() && s[first_one(
            s,
            p,
        )->0]),
    decreases s.len() - p,
{
    if 0 <= p < s.len() && !s[p] {
        lemma_first_one_ge(s, p + 1);
    }
}

/// What `first_one` finds: a set bit, with only clear bits before it.
pub proof fn lemma_first_one(s: Seq<bool>, p: int, r: int)
    requires
        first_one(s, p) is Some,
        p <= r <= first_one(s, p)->0,
    ensures
        p >= 0,
        first_one(s, p)->0 < s.len(),
        s[first_one(s, p)->0],
        first_one(s, r) == first_one(s, p),
        r < first_one(s, p)->0 ==> !s[r],
    decreases r - p,
{
    lemma_first_one_ge(s, p);
    if p < r {
        assert(!s[p]);
        assert(first_one(s, p + 1) == first_one(s, p));
        lemma_first_one(s, p + 1, r);
    }
}

/// Clear bits from `p` up to `r` do not change where the first set bit is.
pub proof fn lemma_first_one_skip_zeros(s: Seq<bool>, p: int, r: int)
    requires
        0 <= p <= r <= s.len(),
        forall|i: int| p <= i < r ==> !s[i],
    ensures
        first_one(s, p) == first_one(s, r),
    decreases r - p,
{
    if p < r {
        lemma_first_one_skip_zeros(s, p + 1, r);
    }
}

/// One bit read as a number is 1 exactly when the bit is set.
pub proof fn lemma_single_bit(s: Seq<bool>, p: int)
    requires
        0 <= p < s.len(),
    ensures
        (bits_to_u32(s.subrange(p, p + 1)) != 0) == s[p],
        bits_to_u32(s.subrange(p, p + 1)) <= 1,
{
    let t = s.subrange(p, p + 1);
    assert(t.drop_last() =~= Seq::<bool>::empty());
    assert(bits_to_u32(t.drop_last()) == 0);
    assert(t.last() == s[p]);
    assert(bits_to_u32(t) == (bits_to_u32(t.drop_last()) << 1u32) | (if t.last() { 1u32 } else { 0u32 }));
    lemma_bit_facts();
}

/// The number of bits needed to write `n` (0 for 0).
pub open spec fn bit_len(n: nat) -> nat
    decreases n,
{
    if n == 0 {
        0
    } else {
        1 + bit_len(n / 2)
    }
}

/// The unsigned Exp-Golomb code of `v`: as many zeros as `v + 1` has bits after its
/// leading one, then `v + 1` itself.
pub open spec fn ue_bits(v: u32) -> Seq<bool>
    recommends
        v < 0xffff_ffff,
{
    let n = (v + 1) as u32;
    zeros((bit_len(n as nat) - 1) as nat) + u32_bits(n, bit_len(n as nat))
}

/// The unsigned value a signed Exp-Golomb value is sent as.
pub open spec fn ue_of_se(x: int) -> u32 {
    if x <= 0 {
        (-2 * x) as u32
    } else {
        (2 * x - 1) as u32
    }
}

/// The signed Exp-Golomb code of `x`.
pub open spec fn se_bits(x: int) -> Seq<bool> {
    ue_bits(ue_of_se(x))
}

/// The signed values the writer can send as Exp-Golomb codes.
pub open spec fn se_writable(x: int) -> bool {
    -0x3fff_ffff <= x <= 0x3fff_ffff
}

/// The leading one of a non-zero number sits at bit `bit_len - 1`.
pub proof fn lemma_bit_len(n: u32)
    requires
        n > 0,
    ensures
        1 <= bit_len(n as nat) <= 32,
        n >> ((bit_len(n as nat) - 1) as u32) == 1,
    decreases n,
{
    if n == 1 {
        assert(bit_len(0) == 0);
        lemma_bit_facts();
    } else {
        let m = n >> 1u32;
        assert(m == n / 2 && m > 0 && m < 0x8000_0000) by (bit_vector)
            requires
                n > 1,
                m == n >> 1u32,
        ;
        lemma_bit_len(m);
        let l = (bit_len(m as nat) - 1) as u32;
        if l == 31 {
            assert(m >> 31u32 == 0) by (bit_vector)
                requires
                    m < 0x8000_0000,
            ;
        }
        assert(n >> ((l + 1) as u32) == m >> l) by (bit_vector)
            requires
                m == n >> 1u32,
                l < 31,
        ;
    }
}

/// Reading the Exp-Golomb code of `v` gives `v` back, wherever the code sits.
pub proof fn lemma_ue_roundtrip(pre: Seq<bool>, v: u32, rest: Seq<bool>)
    requires
        v < 0xffff_ffff,
    ensures
        ue_at(pre + ue_bits(v) + rest, pre.len() as int) == Some(
            (v, (pre.len() + ue_bits(v).len()) as int),
        ),
{
    let n = (v + 1) as u32;
    lemma_bit_len(n);
    let l = bit_len(n as nat);
    let code = ue_bits(v);
    let s = pre + code + rest;
    let p = pre.len() as int;
    let q = p + l - 1;
    assert forall|i: int| p <= i < q implies !s[i] by {
        assert(s[i] == code[i - p]);
    }
    lemma_first_one_skip_zeros(s, p, q);
    assert(code[q - p] == u32_bits(n, l)[0]);
    assert(s[q] == code[q - p]);
    let l1 = (l - 1) as u32;
    assert((n >> l1) & 1u32 == 1u32) by (bit_vector)
        requires
            n >> l1 == 1,
    ;
    assert(s[q]);
    assert(first_one(s, q) == Some(q));
    let lz = l - 1;
    let tail = s.subrange(q + 1, q + 1 + lz);
    assert(tail =~= u32_bits(n, lz as nat)) by {
        assert forall|i: int| 0 <= i < lz implies tail[i] == u32_bits(n, lz as nat)[i] by {
            assert(tail[i] == u32_bits(n, l)[i + 1]);
        }
    }
    lemma_bits_of_u32_bits(n, lz as nat);
    let ll = lz as u32;
    assert((1u32 << ll) as int + (n & (((1u64 << (ll as u64)) - 1) as u32)) as int == n as int)
        by (bit_vector)
        requires
            n >> ll == 1,
            ll < 32,
    ;
}

/// Reading the signed Exp-Golomb code of `x` gives `x` back.
pub proof fn lemma_se_roundtrip(pre: Seq<bool>, x: int, rest: Seq<bool>)
    requires
        se_writable(x),
    ensures
        se_at(pre + se_bits(x) + rest, pre.len() as int) == Some(
            (x, (pre.len() + se_bits(x).len()) as int),
        ),
{
    lemma_ue_roundtrip(pre, ue_of_se(x), rest);
}

/// Reads bits (most significant first) from an escaped Annex-B payload,
/// skipping emulation-prevention bytes.
pub struct AnnexBBitstreamReader<'a> {
    buffer: &'a [u8],
    byte_offset: usize,
    bit_offset: u8,
}

impl<'a> AnnexBBitstreamReader<'a> {
    /// The escaped bytes being read.
    pub closed spec fn source(&self) -> Seq<u8> {
        self.buffer@
    }

    /// The payload bits: the bits of the source with emulation-prevention bytes removed.
    pub open spec fn bits(&self) -> Seq<bool> {
        bytes_to_bits(unescape(self.source()))
    }

    /// How many payload bits have been read.
    pub closed spec fn pos(&self) -> int {
        8 * unescape(self.buffer@.take(self.byte_offset as int)).len() + self.bit_offset
    }

    /// The reader's internal consistency.
    pub closed spec fn wf(&self) -> bool {
        &&& self.byte_offset <= self.buffer@.len()
        &&& self.bit_offset < 8
        &&& self.bit_offset != 0 ==> (self.byte_offset < self.buffer@.len()
            && !is_emulation_byte(self.buffer@, self.byte_offset as int))
    }

    /// The read position never passes the end of the payload.
    pub proof fn lemma_pos_bound(&self)
        requires
            self.wf(),
        ensures
            0 <= self.pos() <= self.bits().len(),
    {
        let buf = self.buffer@;
        let bo = self.byte_offset as int;
        lemma_unescape_prefix(buf, bo);
        if self.bit_offset != 0 {
            lemma_unescape_index(buf, bo);
        }
    }

    /// A reader at the start of `buffer`.
    pub fn new(buffer: &'a [u8]) -> (r: Self)
        ensures
            r.wf(),
            r.source() == buffer@,
            r.pos() == 0,
    {
        let r = AnnexBBitstreamReader { buffer, byte_offset: 0, bit_offset: 0 };
        proof {
            assert(buffer@.take(0) =~= Seq::<u8>::empty());
        }
        r
    }

    /// Whether `count` more payload bits can be read.
    pub fn has_bits(&self, count: u32) -> (r: bool)
        requires
            self.wf(),
        ensures
            r == (self.pos() + count <= self.bits().len()),
    {
        let ghost buf = self.buffer@;
        let len = self.buffer.len();
        let mut j = self.byte_offset;
        let mut left: u64 = 0;
        let need: u64 = (count as u64 + self.bit_offset as u64 + 7) / 8;
        proof {
            lemma_unescape_prefix(buf, j as int);
        }
        while j < len && left < need
            invariant
                self.wf(),
                buf == self.buffer@,
                len == buf.len(),
                self.byte_offset <= j <= len,
                left <= need,
                left == unescape(buf.take(j as int)).len() - unescape(
                    buf.take(self.byte_offset as int),
                ).len(),
            decreases len - j,
        {
            proof {
                lemma_unescape_take_step(buf, j as int);
            }
            if !(j >= 2 && self.buffer[j - 2] == 0 && self.buffer[j - 1] == 0 && self.buffer[j]
                == 3) {
                left = left + 1;
            }
            j = j + 1;
        }
        proof {
            lemma_unescape_prefix(buf, j as int);
            if j == len {
                lemma_unescape_take_all(buf);
            }
            self.lemma_pos_bound();
        }
        left >= need
    }

    /// Reads `count` bits, most significant first; the result holds the last 32 of them.
    pub fn read_bits(&mut self, count: u32) -> (r: u32)
        requires
            old(self).wf(),
            old(self).pos() + count <= old(self).bits().len(),
        ensures
            final(self).wf(),
            final(self).source() == old(self).source(),
            final(self).pos() == old(self).pos() + count,
            r == bits_to_u32(old(self).bits().subrange(old(self).pos(), old(self).pos() + count)),
    {
        let ghost s = old(self).bits();
        let ghost p0 = old(self).pos();
        let ghost buf = self.buffer@;
        let ghost count0 = count;
        let mut count = count;
        if count == 0 {
            proof {
                assert(s.subrange(p0, p0) =~= Seq::<bool>::empty());
            }
            return 0;
        }
        let mut result: u32 = 0;
        proof {
            assert(s.subrange(p0, p0) =~= Seq::<bool>::empty());
        }
        while count > 0
            invariant
                self.wf(),
                self.buffer@ == buf,
                s == bytes_to_bits(unescape(buf)),
                count <= count0,
                self.pos() == p0 + (count0 - count),
                self.pos() + count <= s.len(),
                0 <= p0,
                result == bits_to_u32(s.subrange(p0, self.pos())),
            decreases count,
        {
            let ghost pos = self.pos();
            let ghost u = unescape(buf.take(self.byte_offset as int)).len();
            proof {
                lemma_unescape_prefix(buf, self.byte_offset as int);
                if self.byte_offset as int == buf.len() {
                    lemma_unescape_take_all(buf);
                }
            }
            if self.bit_offset == 0 && self.byte_offset >= 2 && self.buffer[self.byte_offset - 2]
                == 0 && self.buffer[self.byte_offset - 1] == 0 && self.buffer[self.byte_offset]
                == 3 {
                proof {
                    lemma_unescape_take_step(buf, self.byte_offset as int);
                    if self.byte_offset as int + 1 == buf.len() {
                        lemma_unescape_take_all(buf);
                    }
                }
                self.byte_offset = self.byte_offset + 1;
            }
            let bo = self.byte_offset;
            proof {
                lemma_unescape_index(buf, bo as int);
                lemma_unescape_take_step(buf, bo as int);
                assert(u == unescape(buf.take(bo as int)).len());
            }
            let byte = self.buffer[bo];
            if self.bit_offset == 0 && count >= 8 {
                proof {
                    lemma_bytes_to_bits_sub(unescape(buf), u as int, 0, 8);
                    lemma_byte_bits_value(byte, 0, 8);
                    assert(s.subrange(p0, pos + 8) =~= s.subrange(p0, pos) + s.subrange(
                        pos,
                        pos + 8,
                    ));
                    lemma_bits_to_u32_append(s.subrange(p0, pos), s.subrange(pos, pos + 8));
                    let x = byte as u32;
                    assert((x >> 0u32) & low_mask(8) == x) by (bit_vector)
                        requires
                            x < 256,
                    ;
                }
                result = (result << 8) | self.buffer[self.byte_offset] as u32;
                self.byte_offset = self.byte_offset + 1;
                count = count - 8;
            } else {
                let bits_to_read: u8 = if count < 8 - self.bit_offset as u32 {
                    count as u8
                } else {
                    8 - self.bit_offset
                };
                assert(1 <= bits_to_read < 8);
                proof {
                    lemma_bit_facts();
                    assert(1u8 << bits_to_read >= 1);
                }
                let mask: u8 = (1u8 << bits_to_read) - 1;
                let new_bits = (self.buffer[self.byte_offset] >> (8 - self.bit_offset
                    - bits_to_read)) & mask;
                proof {
                    let o = self.bit_offset as int;
                    let k = bits_to_read as int;
                    lemma_bytes_to_bits_sub(unescape(buf), u as int, o, k);
                    lemma_byte_bits_value(byte, o, k);
                    assert(s.subrange(p0, pos + k) =~= s.subrange(p0, pos) + s.subrange(
                        pos,
                        pos + k,
                    ));
                    lemma_bits_to_u32_append(s.subrange(p0, pos), s.subrange(pos, pos + k));
                    let x = byte as u32;
                    let sh = (8 - o - k) as u8;
                    let kk = bits_to_read;
                    assert(((byte >> sh) & (((1u8 << kk) - 1) as u8)) as u32 == (x >> (sh as u32))
                        & low_mask(kk as u32)) by (bit_vector)
                        requires
                            x == byte as u32,
                            sh < 8,
                            1 <= kk < 8,
                    ;
                }
                result = (result << bits_to_read) | new_bits as u32;
                count = count - bits_to_read as u32;
                self.bit_offset = self.bit_offset + bits_to_read;
                if self.bit_offset == 8 {
                    self.bit_offset = 0;
                    self.byte_offset = self.byte_offset + 1;
                }
            }
        }
        result
    }

    /// Reads `bits` bits as an unsigned number.
    pub fn read_unsigned(&mut self, bits: u32) -> (r: u32)
        requires
            old(self).wf(),
            old(self).pos() + bits <= old(self).bits().len(),
        ensures
            final(self).wf(),
            final(self).source() == old(self).source(),
            final(self).pos() == old(self).pos() + bits,
            r == bits_to_u32(old(self).bits().subrange(old(self).pos(), old(self).pos() + bits)),
    {
        self.read_bits(bits)
    }

    /// Reads `bits` bits as a two's-complement number.
    pub fn read_signed(&mut self, bits: u32) -> (r: i32)
        requires
            old(self).wf(),
            1 <= bits <= 32,
            old(self).pos() + bits <= old(self).bits().len(),
            bits >= 31 ==> bits_to_u32(
                old(self).bits().subrange(old(self).pos(), old(self).pos() + bits),
            ) & (1u32 << ((bits - 1) as u32)) == 0,
        ensures
            final(self).wf(),
            final(self).source() == old(self).source(),
            final(self).pos() == old(self).pos() + bits,
            ({
                let v = bits_to_u32(old(self).bits().subrange(old(self).pos(), old(self).pos() + bits));
                r == if v & (1u32 << ((bits - 1) as u32)) != 0 {
                    v - (1u64 << (bits as u64))
                } else {
                    v as int
                }
            }),
    {
        let ghost sub = old(self).bits().subrange(old(self).pos(), old(self).pos() + bits);
        let unsigned = self.read_unsigned(bits);
        if unsigned & (1 << (bits - 1)) != 0 {
            proof {
                if bits <= 30 {
                    lemma_bits_to_u32_bound(sub);
                }
                assert(unsigned < (1u64 << (bits as u64)) && (1i32 << bits) as int == (1u64 << (
                bits as u64)) && (1u64 << (bits as u64)) <= 0x4000_0000) by (bit_vector)
                    requires
                        bits <= 30,
                        unsigned >> bits == 0,
                ;
            }
            unsigned as i32 - (1i32 << bits)
        } else {
            proof {
                if bits == 32 {
                    assert(unsigned & (1u32 << ((bits - 1) as u32)) == 0 ==> unsigned <= 0x7fff_ffff)
                        by (bit_vector)
                        requires
                            bits == 32,
                    ;
                } else {
                    lemma_bits_to_u32_bound(sub);
                    assert(unsigned >> bits == 0 ==> unsigned <= 0x7fff_ffff) by (bit_vector)
                        requires
                            1 <= bits <= 31,
                    ;
                }
            }
            unsigned as i32
        }
    }

    /// Reads an unsigned Exp-Golomb code.
    pub fn read_ue(&mut self) -> (r: u32)
        requires
            old(self).wf(),
            ue_at(old(self).bits(), old(self).pos()) is Some,
        ensures
            final(self).wf(),
            final(self).source() == old(self).source(),
            ue_at(old(self).bits(), old(self).pos()) == Some((r, final(self).pos())),
            r < 0xffff_ffff,
    {
        let ghost s = old(self).bits();
        let ghost p0 = old(self).pos();
        let ghost q = first_one(s, p0)->0;
        proof {
            lemma_first_one_ge(s, p0);
            lemma_first_one(s, p0, p0);
        }
        let mut leading_zeros: u32 = 0;
        loop
            invariant_except_break
                self.pos() == p0 + leading_zeros,
                p0 + leading_zeros <= q,
            invariant
                self.wf(),
                self.source() == old(self).source(),
                s == self.bits(),
                first_one(s, p0) == Some(q),
                q < s.len(),
                q - p0 < 32,
                0 <= p0,
            ensures
                self.pos() == q + 1,
                leading_zeros == q - p0,
            decreases q - p0 - leading_zeros,
        {
            let ghost pos = self.pos();
            proof {
                lemma_first_one(s, p0, pos);
            }
            let bit = self.read_bits(1);
            proof {
                lemma_single_bit(s, pos);
            }
            if bit != 0 {
                break;
            }
            leading_zeros = leading_zeros + 1;
        }
        let ghost rest = s.subrange(q + 1, q + 1 + leading_zeros);
        let tail = self.read_bits(leading_zeros);
        proof {
            lemma_bits_to_u32_bound(rest);
            assert(tail >> leading_zeros == 0 ==> (1u32 << leading_zeros) + tail - 1 <= 0xffff_fffe
                && (1u32 << leading_zeros) >= 1) by (bit_vector)
                requires
                    leading_zeros < 32,
            ;
        }
        (1 << leading_zeros) + tail - 1
    }

    /// Reads a signed Exp-Golomb code.
    pub fn read_se(&mut self) -> (r: i32)
        requires
            old(self).wf(),
            ue_at(old(self).bits(), old(self).pos()) is Some,
        ensures
            final(self).wf(),
            final(self).source() == old(self).source(),
            se_at(old(self).bits(), old(self).pos()) == Some((r as int, final(self).pos())),
    {
        let unsigned = self.read_ue();
        if unsigned % 2 == 0 {
            -((unsigned / 2) as i32)
        } else {
            ((unsigned + 1) / 2) as i32
        }
    }

    /// Whether an unsigned Exp-Golomb code can be read here.
    pub fn can_read_ue(&self) -> (r: bool)
        requires
            self.wf(),
        ensures
            r == ue_at(self.bits(), self.pos()) is Some,
    {
        let ghost s = self.bits();
        let ghost p0 = self.pos();
        let mut probe = AnnexBBitstreamReader {
            buffer: self.buffer,
            byte_offset: self.byte_offset,
            bit_offset: self.bit_offset,
        };
        let mut lz: u32 = 0;
        loop
            invariant_except_break
                probe.pos() == p0 + lz,
                forall|i: int| p0 <= i < p0 + lz ==> !s[i],
            invariant
                probe.wf(),
                probe.source() == self.source(),
                s == self.bits(),
                p0 == self.pos(),
                lz < 32,
                0 <= p0,
            ensures
                probe.wf(),
                probe.source() == self.source(),
                probe.pos() == p0 + lz + 1,
                lz < 32,
                first_one(s, p0) == Some(p0 + lz),
            decreases 32 - lz,
        {
            if !probe.has_bits(1) {
                proof {
                    probe.lemma_pos_bound();
                    assert(probe.bits() == s);
                    assert(p0 + lz == s.len());
                    lemma_first_one_skip_zeros(s, p0, p0 + lz);
                    assert(first_one(s, p0 + lz) is None);
                    assert(first_one(s, p0) is None);
                    assert(ue_at(s, p0) is None);
                    assert(s == self.bits() && p0 == self.pos());
                }
                return false;
            }
            let ghost pos = probe.pos();
            let bit = probe.read_bits(1);
            proof {
                lemma_single_bit(s, pos);
            }
            if bit != 0 {
                proof {
                    lemma_first_one_skip_zeros(s, p0, pos);
                }
                break;
            }
            if lz == 31 {
                proof {
                    lemma_first_one_skip_zeros(s, p0, p0 + 32);
                    probe.lemma_pos_bound();
                    lemma_first_one_ge(s, p0 + 32);
                    assert(ue_at(s, p0) is None);
                }
                return false;
            }
            lz = lz + 1;
        }
        probe.has_bits(lz)
    }
}

/// The bits of a partly filled byte after its `o` filled bits are zero.
proof fn lemma_pending_tail_zero(p: u8, o: u8)
    requires
        0 < o < 8,
        (p as u32) & (0xffu32 >> (o as u32)) == 0,
    ensures
        byte_bits(p) == byte_bits(p).take(o as int) + zeros((8 - o) as nat),
        ((8 - (o as int)) % 8) == 8 - o,
{
    assert forall|i: int| o <= i < 8 implies !byte_bits(p)[i] by {
        let ii = i as u8;
        assert((p >> ((7 - ii) as u8)) & 1u8 == 0) by (bit_vector)
            requires
                (p as u32) & (0xffu32 >> (o as u32)) == 0,
                o <= ii < 8,
        ;
    }
    assert(byte_bits(p) =~= byte_bits(p).take(o as int) + zeros((8 - o) as nat));
}

/// The number of bits needed to write `n`.
fn bit_length(n: u32) -> (r: u32)
    ensures
        r as nat == bit_len(n as nat),
{
    let mut t = n;
    let mut count: u32 = 0;
    assert((n as u64) < (1u64 << 32u64)) by (bit_vector);
    while t > 0
        invariant
            count + bit_len(t as nat) == bit_len(n as nat),
            count <= 32,
            (t as u64) < (1u64 << ((32 - count) as u64)),
        decreases t,
    {
        assert((t >> 1u32) as nat == (t as nat) / 2 && count < 32 && ((t >> 1u32) as u64) < (1u64
            << ((32 - count - 1) as u64))) by (bit_vector)
            requires
                t > 0,
                count <= 32,
                (t as u64) < (1u64 << ((32 - count) as u64)),
        ;
        t = t >> 1;
        count = count + 1;
    }
    count
}

/// Writes bits (most significant first) into an escaped Annex-B payload,
/// putting in emulation-prevention bytes as each byte completes.
pub struct AnnexBBitstreamWriter {
    arr: Vec<u8>,
    pending_byte: u8,
    bit_offset: u8,
    raw: Ghost<Seq<u8>>,
}

impl AnnexBBitstreamWriter {
    /// Every bit written so far.
    pub closed spec fn bits(&self) -> Seq<bool> {
        bytes_to_bits(self.raw@) + byte_bits(self.pending_byte).take(self.bit_offset as int)
    }

    /// The writer's internal consistency.
    pub closed spec fn wf(&self) -> bool {
        &&& self.bit_offset < 8
        &&& self.arr@ == escape(self.raw@)
        &&& (self.pending_byte as u32) & (0xffu32 >> (self.bit_offset as u32)) == 0
    }

    /// The bytes completed so far, before escaping.
    pub closed spec fn completed(&self) -> Seq<u8> {
        self.raw@
    }

    /// The completed bytes are the byte-aligned part of the bits written.
    proof fn lemma_completed(&self)
        requires
            self.wf(),
        ensures
            self.bits().len() % 8 == self.bit_offset,
            self.completed() == bits_to_bytes(
                self.bits().take(self.bits().len() - self.bits().len() % 8),
            ),
    {
        let n = self.raw@.len();
        assert((8 * n + self.bit_offset) % 8 == self.bit_offset as int) by (nonlinear_arith)
            requires
                self.bit_offset < 8,
        ;
        assert(self.bits().take((8 * n) as int) =~= bytes_to_bits(self.raw@));
        lemma_bits_to_bytes_of_bytes(self.raw@);
    }

    /// An empty writer.
    pub fn new() -> (r: Self)
        ensures
            r.wf(),
            r.bits() == Seq::<bool>::empty(),
    {
        let r = AnnexBBitstreamWriter {
            arr: Vec::new(),
            pending_byte: 0,
            bit_offset: 0,
            raw: Ghost(Seq::empty()),
        };
        proof {
            lemma_bit_facts();
            assert(r.bits() =~= Seq::<bool>::empty());
        }
        r
    }

    /// The escaped bytes completed so far (a partial last byte is left out).
    pub fn to_vec(self) -> (r: Vec<u8>)
        requires
            self.wf(),
        ensures
            r@ == escape(
                bits_to_bytes(self.bits().take(self.bits().len() - self.bits().len() % 8)),
            ),
    {
        proof {
            self.lemma_completed();
        }
        self.arr
    }

    /// Completes a partial last byte with zero bits.
    pub fn flush_final(&mut self)
        requires
            old(self).wf(),
        ensures
            final(self).wf(),
            final(self).bits() == old(self).bits() + zeros(
                ((8 - old(self).bits().len() % 8) % 8) as nat,
            ),
            final(self).bits().len() % 8 == 0,
    {
        proof {
            old(self).lemma_completed();
        }
        if self.bit_offset > 0 {
            let ghost o = self.bit_offset;
            let ghost p = self.pending_byte;
            let ghost raw0 = self.raw@;
            proof {
                lemma_pending_tail_zero(p, o);
            }
            self.flush();
            proof {
                lemma_bytes_to_bits_push(raw0, p);
                lemma_bit_facts();
                assert(byte_bits(0u8).take(0) =~= Seq::<bool>::empty());
                assert(self.bits() =~= bytes_to_bits(self.raw@));
                self.lemma_completed();
            }
        } else {
            proof {
                assert(zeros(0) =~= Seq::<bool>::empty());
                assert(old(self).bits() + zeros(0) =~= old(self).bits());
            }
        }
    }

    /// Writes `count` bits of `num`.
    pub fn write_unsigned(&mut self, num: u32, count: u32)
        requires
            old(self).wf(),
            count + old(self).bits().len() % 8 <= 39,
        ensures
            final(self).wf(),
            final(self).bits() == old(self).bits() + u32_bits(num, count as nat),
    {
        self.write_bits(num, count);
    }

    /// Writes `num` as a `count`-bit two's-complement number.
    pub fn write_signed(&mut self, num: i32, count: u32)
        requires
            old(self).wf(),
            count <= 32,
        ensures
            final(self).wf(),
            final(self).bits() == old(self).bits() + u32_bits(num as u32, count as nat),
    {
        if count == 0 {
            proof {
                assert(u32_bits(num as u32, 0) =~= Seq::<bool>::empty());
                assert(old(self).bits() + Seq::<bool>::empty() =~= old(self).bits());
            }
            return;
        }
        proof {
            old(self).lemma_completed();
        }
        let mask: u32 = if count == 32 {
            0xFFFF_FFFF
        } else {
            proof {
                lemma_bit_facts();
                assert(1u32 << count >= 1);
            }
            (1u32 << count) - 1
        };
        let unsigned = (num as u32) & mask;
        proof {
            let w = num as u32;
            assert forall|i: int| 0 <= i < count implies u32_bits(unsigned, count as nat)[i]
                == u32_bits(w, count as nat)[i] by {
                let j = (count - 1 - i) as u32;
                assert((unsigned >> j) & 1u32 == (w >> j) & 1u32) by (bit_vector)
                    requires
                        unsigned == w & mask,
                        j < count,
                        count <= 32,
                        count == 32 ==> mask == 0xFFFF_FFFFu32,
                        count < 32 ==> mask == ((1u32 << count) - 1) as u32,
                ;
            }
            assert(u32_bits(unsigned, count as nat) =~= u32_bits(w, count as nat));
        }
        self.write_bits(unsigned, count);
    }

    /// Writes an unsigned Exp-Golomb code.
    pub fn write_ue(&mut self, num: u32)
        requires
            old(self).wf(),
            num < 0xffff_ffff,
        ensures
            final(self).wf(),
            final(self).bits() == old(self).bits() + ue_bits(num),
    {
        let n = num + 1;
        let bit_count = bit_length(n);
        proof {
            lemma_bit_len(n);
            old(self).lemma_completed();
            assert(u32_bits(0, (bit_count - 1) as nat) =~= zeros((bit_count - 1) as nat)) by {
                assert forall|i: int| 0 <= i < bit_count - 1 implies !#[trigger] u32_bits(0, (bit_count - 1) as nat)[i] by {
                    let j = (bit_count - 2 - i) as u32;
                    lemma_bit_facts();
                    assert((0u32 >> j) & 1u32 == 0);
                }
            }
        }
        self.write_bits(0, bit_count - 1);
        self.write_bits(n, bit_count);
        proof {
            assert(old(self).bits() + ue_bits(num) =~= old(self).bits() + zeros((bit_count - 1) as nat)
                + u32_bits(n, bit_count as nat));
        }
    }

    /// Writes a signed Exp-Golomb code.
    pub fn write_se(&mut self, num: i32)
        requires
            old(self).wf(),
            se_writable(num as int),
        ensures
            final(self).wf(),
            final(self).bits() == old(self).bits() + se_bits(num as int),
    {
        if num <= 0 {
            self.write_ue((-2 * num) as u32);
        } else {
            self.write_ue((2 * num - 1) as u32);
        }
    }

    /// Completes the pending byte, escaping it after two zero bytes.
    fn flush(&mut self)
        requires
            old(self).arr@ == escape(old(self).raw@),
        ensures
            final(self).raw@ == old(self).raw@.push(old(self).pending_byte),
            final(self).arr@ == escape(final(self).raw@),
            final(self).pending_byte == 0,
            final(self).bit_offset == 0,
    {
        let ghost e = self.arr@;
        if self.pending_byte <= 3 && self.arr.len() >= 2 && self.arr[self.arr.len() - 2] == 0
            && self.arr[self.arr.len() - 1] == 0 {
            self.arr.push(3);
        }
        self.arr.push(self.pending_byte);
        proof {
            let raw2 = self.raw@.push(self.pending_byte);
            assert(raw2.drop_last() =~= self.raw@);
            assert(ends_in_two_zeros(e) == (e.len() >= 2 && e[e.len() - 2] == 0 && e[e.len() - 1]
                == 0));
            self.raw = Ghost(raw2);
        }
        self.pending_byte = 0;
        self.bit_offset = 0;
    }

    /// Writes the low `count` bits of `bits`, most significant first (bits above
    /// bit 31 are zero).
    pub fn write_bits(&mut self, bits: u32, count: u32)
        requires
            old(self).wf(),
            count + old(self).bits().len() % 8 <= 39,
        ensures
            final(self).wf(),
            final(self).bits() == old(self).bits() + u32_bits(bits, count as nat),
    {
        proof {
            old(self).lemma_completed();
        }
        let ghost c0 = count as nat;
        let ghost v0 = old(self).bits();
        let ghost target = u32_bits(bits, c0);
        let mut count = count;
        while count > 0
            invariant
                self.wf(),
                count <= c0,
                count + self.bit_offset <= 39,
                self.bits() == v0 + target.take(c0 - count),
                target == u32_bits(bits, c0),
            decreases count,
        {
            let ghost done = c0 - count;
            let ghost before = self.bits();
            if self.bit_offset == 0 {
                if count >= 8 {
                    proof {
                        lemma_u32_bits_chunk(bits, c0, count as nat, 8);
                        let x = (bits >> ((count - 8) as u32)) & low_mask(8);
                        assert(x < 256 && x == (bits >> ((count - 8) as u32)) & 0xFFu32) by (bit_vector)
                            requires
                                x == (bits >> ((count - 8) as u32)) & (((1u32 << 8u32) - 1) as u32),
                        ;
                        lemma_byte_of_u32(x);
                    }
                    self.pending_byte = ((bits >> (count - 8)) & 0xFF) as u8;
                    count = count - 8;
                    let ghost b = self.pending_byte;
                    let ghost raw0 = self.raw@;
                    self.flush();
                    proof {
                        lemma_bytes_to_bits_push(raw0, b);
                        assert(before =~= bytes_to_bits(raw0));
                        assert(target.take((done + 8) as int) =~= target.take(done as int)
                            + target.subrange(done as int, done + 8));
                        assert(self.bits() =~= bytes_to_bits(self.raw@));
                        lemma_bit_facts();
                        assert(self.bits() =~= before + target.subrange(done as int, done + 8));
                        assert(self.bits() =~= v0 + target.take(c0 - count)) by {
                            assert(c0 - count == done + 8);
                        }
                    }
                } else {
                    proof {
                        lemma_bit_facts();
                        assert(1u32 << count >= 1);
                    }
                    let mask = (1u32 << count) - 1;
                    proof {
                        lemma_u32_bits_chunk(bits, c0, count as nat, count as nat);
                        let t = (bits >> 0u32) & low_mask(count);
                        let cc = count;
                        assert(t == bits & mask && (t as u8) as u32 == t && (t >> cc) == 0 && ((bits
                            & mask) << ((8 - cc) as u32)) == ((t as u8) << ((8 - cc) as u8)) as u32)
                            by (bit_vector)
                            requires
                                t == (bits >> 0u32) & (((1u32 << cc) - 1) as u32),
                                mask == ((1u32 << cc) - 1) as u32,
                                1 <= cc < 8,
                        ;
                        lemma_bit_facts();
                        assert(0u8 | ((t as u8) << ((8 - cc) as u8)) == (t as u8) << ((8 - cc) as u8));
                        lemma_pending_insert(0u8, t as u8, 0u8, count as u8);
                        assert(self.pending_byte == 0) by {
                            let pb = self.pending_byte;
                            lemma_bit_facts();
                            assert((pb as u32) & (0xffu32 >> 0u32) == 0 ==> pb == 0);
                        }
                        assert(byte_bits(0u8).take(0) =~= Seq::<bool>::empty());
                    }
                    self.pending_byte = self.pending_byte | (((bits & mask) << (8 - count)) as u8);
                    self.bit_offset = count as u8;
                    count = 0;
                    proof {
                        assert(target.take(c0 as int) =~= target.take(done as int) + target.subrange(
                            done as int,
                            c0 as int,
                        ));
                        assert(self.bits() =~= before + target.subrange(done as int, c0 as int));
                    }
                }
            } else {
                let bits_to_write: u32 = if 8 - (self.bit_offset as u32) < count {
                    8 - self.bit_offset as u32
                } else {
                    count
                };
                let ghost o = self.bit_offset;
                let ghost p = self.pending_byte;
                let ghost t = (bits >> ((count - bits_to_write) as u32)) & low_mask(bits_to_write);
                proof {
                    lemma_u32_bits_chunk(bits, c0, count as nat, bits_to_write as nat);
                    let k = bits_to_write;
                    assert((t as u8) as u32 == t && t >> k == 0) by (bit_vector)
                        requires
                            t == (bits >> ((count - k) as u32)) & (((1u32 << k) - 1) as u32),
                            1 <= k <= 8,
                            count - k < 32,
                    ;
                    lemma_pending_insert(p, t as u8, o, k as u8);
                }
                proof {
                    lemma_bit_facts();
                    assert(1u32 << bits_to_write >= 1);
                }
                let to_write = ((bits >> (count - bits_to_write)) & ((1 << bits_to_write) - 1)) as u8;
                assert(to_write == t as u8);
                self.pending_byte = self.pending_byte | (to_write << (8 - self.bit_offset
                    - bits_to_write as u8));
                count = count - bits_to_write;
                self.bit_offset = self.bit_offset + bits_to_write as u8;
                proof {
                    assert(target.take((done + bits_to_write) as int) =~= target.take(done as int)
                        + target.subrange(done as int, done + bits_to_write));
                    assert(before =~= bytes_to_bits(self.raw@) + byte_bits(p).take(o as int));
                    assert(self.pending_byte == p | ((t as u8) << ((8 - o - bits_to_write) as u8)));
                    assert(byte_bits(self.pending_byte).take(self.bit_offset as int) =~= byte_bits(p).take(o as int) + u32_bits(t, bits_to_write as nat));
                    if self.bit_offset < 8 {
                        assert(self.bits() =~= before + target.subrange(done as int, done + bits_to_write));
                    }
                }
                if self.bit_offset == 8 {
                    self.bit_offset = 0;
                    let ghost b = self.pending_byte;
                    let ghost raw0 = self.raw@;
                    self.flush();
                    proof {
                        lemma_bytes_to_bits_push(raw0, b);
                        assert(byte_bits(b).take(8) =~= byte_bits(b));
                        assert(self.bits() =~= bytes_to_bits(self.raw@));
                        lemma_bit_facts();
                        assert(self.bits() =~= before + target.subrange(done as int, done + bits_to_write));
                    }
                }
            }
        }
        proof {
            assert(target.take(c0 as int) =~= target);
        }
    }
}

} // verus!

verus! {

impl Default for AnnexBBitstreamWriter {
    fn default() -> (r: Self)
        ensures
            r.wf(),
            r.bits() == Seq::<bool>::empty(),
    {
        Self::new()
    }
}


/// What a writer wrote reads back bit for bit: once its last byte is completed,
/// the payload bits of its bytes (see [`AnnexBBitstreamWriter::to_vec`]), which
/// a reader over them sees, are exactly the bits written.
pub proof fn lemma_reader_sees_writer(w: AnnexBBitstreamWriter, bytes: Seq<u8>)
    requires
        w.wf(),
        w.bits().len() % 8 == 0,
        bytes == escape(bits_to_bytes(w.bits().take(w.bits().len() - w.bits().len() % 8))),
    ensures
        bytes_to_bits(unescape(bytes)) == w.bits(),
{
    let b = w.bits();
    assert(b.take(b.len() - b.len() % 8) =~= b);
    lemma_unescape_escape(bits_to_bytes(b));
    lemma_bytes_to_bits_of_bits(b);
}

/// A number written as an `n`-bit two's-complement field reads back as itself when
/// it fits: the field's bits, read as `read_signed` reads them, give `v`.
pub proof fn lemma_signed_roundtrip(v: i32, n: u32)
    requires
        1 <= n <= 30,
        -(1i64 << ((n - 1) as u64)) <= v < (1i64 << ((n - 1) as u64)),
    ensures
        ({
            let u = bits_to_u32(u32_bits(v as u32, n as nat));
            (if u & (1u32 << ((n - 1) as u32)) != 0 {
                u - (1u64 << (n as u64))
            } else {
                u as int
            }) == v
        }),
{
    lemma_bits_of_u32_bits(v as u32, n as nat);
    let u = bits_to_u32(u32_bits(v as u32, n as nat));
    assert(u == (v as u32) & (((1u64 << (n as u64)) - 1) as u32));
    let m = (((1u64 << (n as u64)) - 1) as u32);
    assert({
        let w = (v as u32) & m;
        &&& (w & (1u32 << ((n - 1) as u32)) != 0) ==> (w as i64) - (1i64 << (n as u64)) == v as i64
        &&& (w & (1u32 << ((n - 1) as u32)) == 0) ==> (w as i64) == v as i64
    }) by (bit_vector)
        requires
            1 <= n <= 30,
            m == (((1u64 << (n as u64)) - 1) as u32),
            -(1i64 << ((n - 1) as u64)) <= v < (1i64 << ((n - 1) as u64)),
    ;
    assert((1u64 << (n as u64)) as int == (1i64 << (n as u64)) as int) by (bit_vector)
        requires
            1 <= n <= 30,
    ;
}

/// The bits of fields written one after the other, each `(value, width)` as
/// `write_bits` writes it.
pub open spec fn fields_bits(fields: Seq<(u32, nat)>) -> Seq<bool>
    decreases fields.len(),
{
    if fields.len() == 0 {
        Seq::empty()
    } else {
        fields_bits(fields.drop_last()) + u32_bits(fields.last().0, fields.last().1)
    }
}

/// Where field `i` starts among the bits of `fields`.
pub open spec fn field_start(fields: Seq<(u32, nat)>, i: int) -> int {
    fields_bits(fields.take(i)).len() as int
}

/// The low `n` bits of `v`, as `read_bits` gives back a field of width `n`.
pub open spec fn low_bits(v: u32, n: nat) -> u32 {
    if n < 32 {
        v & (((1u64 << (n as u64)) - 1) as u32)
    } else {
        v
    }
}

/// The bits of the first `k` fields begin the bits of all of them.
proof fn lemma_fields_prefix(fields: Seq<(u32, nat)>, k: int)
    requires
        0 <= k <= fields.len(),
    ensures
        fields_bits(fields.take(k)).len() <= fields_bits(fields).len(),
        fields_bits(fields).subrange(0, fields_bits(fields.take(k)).len() as int) == fields_bits(fields.take(k)),
    decreases fields.len(),
{
    if k == fields.len() {
        assert(fields.take(k) =~= fields);
    } else {
        let p = fields.drop_last();
        lemma_fields_prefix(p, k);
        assert(p.take(k) =~= fields.take(k));
        let a = fields_bits(p);
        let b = u32_bits(fields.last().0, fields.last().1);
        assert(fields_bits(fields) == a + b);
        assert((a + b).subrange(0, fields_bits(fields.take(k)).len() as int) =~= a.subrange(
            0,
            fields_bits(fields.take(k)).len() as int,
        ));
    }
}

/// Fields written with `write_bits` read back in order, each as its low bits: once
/// the writer's last byte is completed, the `i`-th field's place in the payload bits
/// of its bytes (which a reader over them reads with `read_bits` after the fields
/// before it) holds the field's value masked to its width.
pub proof fn lemma_written_fields_read_back(
    w: AnnexBBitstreamWriter,
    bytes: Seq<u8>,
    fields: Seq<(u32, nat)>,
    rest: Seq<bool>,
    i: int,
)
    requires
        w.wf(),
        w.bits().len() % 8 == 0,
        bytes == escape(bits_to_bytes(w.bits().take(w.bits().len() - w.bits().len() % 8))),
        w.bits() == fields_bits(fields) + rest,
        0 <= i < fields.len(),
        forall|j: int| 0 <= j < fields.len() ==> #[trigger] fields[j].1 <= 32,
    ensures
        ({
            let s = bytes_to_bits(unescape(bytes));
            let p = field_start(fields, i);
            &&& p + fields[i].1 <= s.len()
            &&& bits_to_u32(s.subrange(p, p + fields[i].1)) == low_bits(fields[i].0, fields[i].1)
        }),
{
    lemma_reader_sees_writer(w, bytes);
    let s = w.bits();
    let pre = fields.take(i + 1);
    assert(pre.drop_last() =~= fields.take(i));
    assert(pre.last() == fields[i]);
    let a = fields_bits(fields.take(i));
    let f = u32_bits(fields[i].0, fields[i].1);
    assert(fields_bits(pre) == a + f);
    lemma_fields_prefix(fields, i + 1);
    let all = fields_bits(fields);
    let p = a.len() as int;
    let n = fields[i].1;
    assert(all.subrange(0, p + n) == a + f);
    assert(s.subrange(p, p + n) =~= (a + f).subrange(p, p + n));
    assert((a + f).subrange(p, p + n) =~= f);
    lemma_bits_of_u32_bits(fields[i].0, n);
}
} // verus!

//! Bit-level models shared by the Annex-B reader, writer and SPS rewriter.
use vstd::prelude::*;

verus! {

/// Bit `i` (0 = most significant) of a byte.
pub open spec fn byte_bit(b: u8, i: int) -> bool {
    (b >> ((7 - i) as u8)) & 1u8 == 1u8
}

/// The eight bits of a byte, most significant first.
pub open spec fn byte_bits(b: u8) -> Seq<bool> {
    Seq::new(8, |i: int| byte_bit(b, i))
}

/// The bits of a byte sequence, each byte most significant bit first.
pub open spec fn bytes_to_bits(bytes: Seq<u8>) -> Seq<bool> {
    Seq::new(8 * bytes.len(), |i: int| byte_bit(bytes[i / 8], i % 8))
}

/// The low `n` bits of `v`, most significant first; positions above bit 31 read as zero.
pub open spec fn u32_bits(v: u32, n: nat) -> Seq<bool> {
    Seq::new(n, |i: int| n - 1 - i < 32 && (v >> ((n - 1 - i) as u32)) & 1u32 == 1u32)
}

/// The number made of the last (at most 32) bits of `s`, most significant first.
pub open spec fn bits_to_u32(s: Seq<bool>) -> u32
    decreases s.len(),
{
    if s.len() == 0 {
        0
    } else {
        (bits_to_u32(s.drop_last()) << 1u32) | (if s.last() { 1u32 } else { 0u32 })
    }
}

/// The bytes whose bits are `s` (the length of `s` is a multiple of 8).
pub open spec fn bits_to_bytes(s: Seq<bool>) -> Seq<u8> {
    Seq::new(s.len() / 8, |j: int| bits_to_u32(s.subrange(8 * j, 8 * j + 8)) as u8)
}

/// `n` zero bits.
pub open spec fn zeros(n: nat) -> Seq<bool> {
    Seq::new(n, |i: int| false)
}

/// `s` followed by zero bits up to the next byte boundary.
pub open spec fn pad_to_byte(s: Seq<bool>) -> Seq<bool> {
    s + zeros(((8 - s.len() % 8) % 8) as nat)
}

/// A mask of the low `k` bits, for `k <= 8`.
pub open spec fn low_mask(k: u32) -> u32 {
    ((1u32 << k) - 1) as u32
}

/// Facts about shifts and masks of small constants, proved once by bit blasting.
pub proof fn lemma_bit_facts()
    by (bit_vector)
    ensures
        0u32 & (0xffu32 >> 0u32) == 0,
        (0u32 << 1u32) | 1u32 == 1u32,
        (0u32 << 1u32) | 0u32 == 0u32,
        0u32 >> 0u32 == 0,
        1u32 >> 0u32 == 1,
        0u32 & 1u32 == 0,
        1u32 & 1u32 == 1u32,
        (0u8 as u32) & (0xffu32 >> (0u8 as u32)) == 0,
        forall|j: u32| #[trigger] (0u32 >> j) == 0u32,
        forall|c: u32| c < 32 ==> #[trigger] (1u32 << c) >= 1,
        forall|c: u8| c < 8 ==> #[trigger] (1u8 << c) >= 1,
        forall|p: u8| #[trigger] ((p as u32) & (0xffu32 >> 0u32)) == 0 ==> p == 0,
        forall|x: u8| #[trigger] (0u8 | x) == x,
        forall|b: u8| #[trigger] (b & 63u8) == b % 64,
        forall|b: u8| #[trigger] (b >> 3u8) == b / 8,
        forall|b: u8| #[trigger] (b & 3u8) == b % 4,
{
}

/// The number of a bit sequence of at most 32 bits stays below `2^len`.
pub proof fn lemma_bits_to_u32_bound(s: Seq<bool>)
    requires
        s.len() <= 31,
    ensures
        bits_to_u32(s) >> (s.len() as u32) == 0,
    decreases s.len(),
{
    if s.len() == 0 {
        lemma_bit_facts();
    } else {
        let p = s.drop_last();
        lemma_bits_to_u32_bound(p);
        let x = bits_to_u32(p);
        let k = p.len() as u32;
        let b: u32 = if s.last() { 1u32 } else { 0u32 };
        assert(((x << 1u32) | b) >> ((k + 1) as u32) == 0) by (bit_vector)
            requires
                x >> k == 0,
                k < 31,
                b <= 1,
        ;
        assert(bits_to_u32(s) == (x << 1u32) | b);
        assert(s.len() as u32 == (k + 1) as u32);
    }
}

/// Reading a sequence split in two: the second part fills the low bits.
pub proof fn lemma_bits_to_u32_append(a: Seq<bool>, b: Seq<bool>)
    requires
        b.len() <= 31,
    ensures
        bits_to_u32(a + b) == (bits_to_u32(a) << (b.len() as u32)) | bits_to_u32(b),
    decreases b.len(),
{
    if b.len() == 0 {
        assert(a + b =~= a);
        let x = bits_to_u32(a);
        assert((x << 0u32) | 0u32 == x) by (bit_vector);
    } else {
        let bp = b.drop_last();
        assert((a + b).drop_last() =~= a + bp);
        assert((a + b).last() == b.last());
        lemma_bits_to_u32_append(a, bp);
        lemma_bits_to_u32_bound(bp);
        let x = bits_to_u32(a);
        let y = bits_to_u32(bp);
        let k = bp.len() as u32;
        let c: u32 = if b.last() { 1u32 } else { 0u32 };
        assert((((x << k) | y) << 1u32) | c == (x << ((k + 1) as u32)) | ((y << 1u32) | c))
            by (bit_vector)
            requires
                y >> k == 0,
                k < 31,
                c <= 1,
        ;
    }
}

/// Reading `k` bits of a byte from bit `o` is a shift and a mask.
pub proof fn lemma_byte_bits_value(b: u8, o: int, k: int)
    requires
        0 <= o,
        0 <= k,
        o + k <= 8,
    ensures
        bits_to_u32(byte_bits(b).subrange(o, o + k)) == ((b as u32) >> ((8 - o - k) as u32))
            & low_mask(k as u32),
    decreases k,
{
    let x = b as u32;
    let oo = o as u32;
    if k == 0 {
        assert(byte_bits(b).subrange(o, o) =~= Seq::<bool>::empty());
        assert((x >> ((8 - oo) as u32)) & ((1u32 << 0u32) - 1) as u32 == 0) by (bit_vector);
    } else {
        let kk = (k - 1) as u32;
        lemma_byte_bits_value(b, o, k - 1);
        assert(byte_bits(b).subrange(o, o + k).drop_last() =~= byte_bits(b).subrange(o, o + k - 1));
        let last = byte_bits(b).subrange(o, o + k).last();
        assert(last == byte_bit(b, o + k - 1));
        let sh = (7 - (o + k - 1)) as u8;
        assert(((b >> sh) & 1u8 == 1u8) == ((x >> (sh as u32)) & 1u32 == 1u32)) by (bit_vector)
            requires
                x == b as u32,
                sh < 8,
        ;
        let c: u32 = if last { 1u32 } else { 0u32 };
        assert((((x >> ((8 - oo - kk) as u32)) & ((1u32 << kk) - 1) as u32) << 1u32) | c
            == (x >> ((8 - oo - kk - 1) as u32)) & ((1u32 << ((kk + 1) as u32)) - 1) as u32)
            by (bit_vector)
            requires
                x < 256,
                oo + kk + 1 <= 8,
                c == (if (x >> ((7 - oo - kk) as u32)) & 1u32 == 1u32 { 1u32 } else { 0u32 }),
        ;
    }
}

/// The eight bits of a byte read back as a number give the byte.
pub proof fn lemma_byte_bits_roundtrip(b: u8)
    ensures
        bits_to_u32(byte_bits(b)) == b as u32,
{
    lemma_byte_bits_value(b, 0, 8);
    assert(byte_bits(b).subrange(0, 8) =~= byte_bits(b));
    let x = b as u32;
    assert((x >> 0u32) & ((1u32 << 8u32) - 1) as u32 == x) by (bit_vector)
        requires
            x < 256,
    ;
}

/// The bits of `bytes` starting at a byte boundary plus an offset are that byte's bits.
pub proof fn lemma_bytes_to_bits_sub(bytes: Seq<u8>, j: int, o: int, k: int)
    requires
        0 <= j < bytes.len(),
        0 <= o,
        0 <= k,
        o + k <= 8,
    ensures
        bytes_to_bits(bytes).subrange(8 * j + o, 8 * j + o + k) == byte_bits(bytes[j]).subrange(
            o,
            o + k,
        ),
{
    let l = bytes_to_bits(bytes).subrange(8 * j + o, 8 * j + o + k);
    let r = byte_bits(bytes[j]).subrange(o, o + k);
    assert forall|i: int| 0 <= i < k implies l[i] == r[i] by {
        assert((8 * j + o + i) / 8 == j);
        assert((8 * j + o + i) % 8 == o + i);
    }
    assert(l =~= r);
}

/// Bits of a sequence of at most 32 bits, turned into a number and back, are unchanged.
pub proof fn lemma_u32_bits_of_bits(s: Seq<bool>)
    requires
        s.len() <= 32,
    ensures
        u32_bits(bits_to_u32(s), s.len()) == s,
    decreases s.len(),
{
    if s.len() > 0 {
        let p = s.drop_last();
        lemma_u32_bits_of_bits(p);
        let x = bits_to_u32(p);
        let c: u32 = if s.last() { 1u32 } else { 0u32 };
        let y = bits_to_u32(s);
        assert(y == (x << 1u32) | c);
        let n = s.len();
        assert forall|i: int| 0 <= i < n implies u32_bits(y, n)[i] == s[i] by {
            let t = (n - 1 - i) as u32;
            if i == n - 1 {
                assert(((x << 1u32) | c) >> 0u32 & 1u32 == c) by (bit_vector)
                    requires
                        c <= 1,
                ;
            } else {
                assert(u32_bits(x, p.len())[i] == p[i]);
                assert((((x << 1u32) | c) >> t) & 1u32 == (x >> ((t - 1) as u32)) & 1u32)
                    by (bit_vector)
                    requires
                        1 <= t < 32,
                        c <= 1,
                ;
            }
        }
        assert(u32_bits(y, n) =~= s);
    }
}

/// The number read back from the low `n` bits of `v` is `v` masked to `n` bits.
pub proof fn lemma_bits_of_u32_bits(v: u32, n: nat)
    requires
        n <= 32,
    ensures
        n < 32 ==> bits_to_u32(u32_bits(v, n)) == v & (((1u64 << (n as u64)) - 1) as u32),
        n == 32 ==> bits_to_u32(u32_bits(v, n)) == v,
    decreases n,
{
    if n == 0 {
        assert(u32_bits(v, 0) =~= Seq::<bool>::empty());
        assert(v & (((1u64 << 0u64) - 1) as u32) == 0) by (bit_vector);
    } else {
        let m = (n - 1) as nat;
        lemma_bits_of_u32_bits(v, m);
        let s = u32_bits(v, n);
        assert(s.drop_last() =~= u32_bits(v >> 1u32, m)) by {
            assert forall|i: int| 0 <= i < m implies s.drop_last()[i] == u32_bits(v >> 1u32, m)[i] by {
                let t = (m - 1 - i) as u32;
                assert((v >> ((t + 1) as u32)) & 1u32 == ((v >> 1u32) >> t) & 1u32) by (bit_vector)
                    requires
                        t < 31,
                ;
            }
        }
        lemma_bits_of_u32_bits(v >> 1u32, m);
        let w = v >> 1u32;
        let c: u32 = if s.last() { 1u32 } else { 0u32 };
        assert(s.last() == ((v >> 0u32) & 1u32 == 1u32));
        let mm = m as u64;
        assert(c == v & 1u32) by (bit_vector)
            requires
                c == (if (v >> 0u32) & 1u32 == 1u32 { 1u32 } else { 0u32 }),
        ;
        if n == 32 {
            assert(((w & (((1u64 << 31u64) - 1) as u32)) << 1u32) | (v & 1u32) == v) by (bit_vector)
                requires
                    w == v >> 1u32,
            ;
        } else {
            assert(((w & (((1u64 << mm) - 1) as u32)) << 1u32) | (v & 1u32) == v & (((1u64 << ((mm
                + 1) as u64)) - 1) as u32)) by (bit_vector)
                requires
                    w == v >> 1u32,
                    mm < 31,
            ;
        }
    }
}

/// A number below 256 has the same eight bits as the byte it casts to.
pub proof fn lemma_byte_of_u32(x: u32)
    requires
        x < 256,
    ensures
        byte_bits(x as u8) == u32_bits(x, 8),
{
    assert forall|i: int| 0 <= i < 8 implies byte_bits(x as u8)[i] == u32_bits(x, 8)[i] by {
        let sh = (7 - i) as u8;
        assert((((x as u8) >> sh) & 1u8 == 1u8) == ((x >> (sh as u32)) & 1u32 == 1u32))
            by (bit_vector)
            requires
                x < 256,
                sh < 8,
        ;
    }
    assert(byte_bits(x as u8) =~= u32_bits(x, 8));
}

/// `k` of the `c` bits still to be written from `v`, taken from the top, are a shift and a mask.
pub proof fn lemma_u32_bits_chunk(v: u32, c0: nat, c: nat, k: nat)
    requires
        k <= c <= c0,
        c - k < 32,
        k <= 8,
    ensures
        u32_bits(v, c0).subrange(c0 - c, c0 - c + k) == u32_bits(
            (v >> ((c - k) as u32)) & low_mask(k as u32),
            k,
        ),
{
    let l = u32_bits(v, c0).subrange(c0 - c, c0 - c + k);
    let sh = (c - k) as u32;
    let kk = k as u32;
    let r = u32_bits((v >> sh) & low_mask(kk), k);
    assert forall|i: int| 0 <= i < k implies l[i] == r[i] by {
        let j = (k - 1 - i) as u32;
        assert(l[i] == u32_bits(v, c0)[c0 - c + i]);
        if sh + j < 32 {
            assert((((v >> sh) & ((1u32 << kk) - 1) as u32) >> j) & 1u32 == (v >> ((sh + j) as u32))
                & 1u32) by (bit_vector)
                requires
                    sh < 32,
                    j < kk,
                    kk <= 8,
                    sh + j < 32,
            ;
        } else {
            assert((((v >> sh) & ((1u32 << kk) - 1) as u32) >> j) & 1u32 == 0) by (bit_vector)
                requires
                    sh < 32,
                    j < kk,
                    kk <= 8,
                    sh + j >= 32,
            ;
        }
    }
    assert(l =~= r);
}

/// Appending a byte appends its eight bits.
pub proof fn lemma_bytes_to_bits_push(raw: Seq<u8>, b: u8)
    ensures
        bytes_to_bits(raw.push(b)) == bytes_to_bits(raw) + byte_bits(b),
{
    let l = bytes_to_bits(raw.push(b));
    let r = bytes_to_bits(raw) + byte_bits(b);
    let n = raw.len() as int;
    assert forall|i: int| 0 <= i < 8 * n + 8 implies l[i] == r[i] by {
        if i < 8 * n {
            assert(i / 8 < n) by (nonlinear_arith)
                requires
                    0 <= i < 8 * n,
            ;
        } else {
            assert(i / 8 == n && i % 8 == i - 8 * n) by (nonlinear_arith)
                requires
                    8 * n <= i < 8 * n + 8,
            ;
        }
    }
    assert(l =~= r);
}

/// Setting `k` bits of a partly filled byte right after its `o` filled bits.
pub proof fn lemma_pending_insert(p: u8, t: u8, o: u8, k: u8)
    requires
        o + k <= 8,
        (p as u32) & (0xffu32 >> (o as u32)) == 0,
        (t as u32) >> (k as u32) == 0,
    ensures
        byte_bits(p | (t << ((8 - o - k) as u8))).take((o + k) as int) == byte_bits(p).take(
            o as int,
        ) + u32_bits(t as u32, k as nat),
        ((p | (t << ((8 - o - k) as u8))) as u32) & (0xffu32 >> ((o + k) as u32)) == 0,
{
    let sh = (8 - o - k) as u8;
    let q = p | (t << sh);
    let l = byte_bits(q).take((o + k) as int);
    let r = byte_bits(p).take(o as int) + u32_bits(t as u32, k as nat);
    assert forall|i: int| 0 <= i < o + k implies l[i] == r[i] by {
        let ii = i as u8;
        if i < o {
            assert(((q >> ((7 - ii) as u8)) & 1u8) == ((p >> ((7 - ii) as u8)) & 1u8))
                by (bit_vector)
                requires
                    q == p | (t << sh),
                    sh == (8 - o - k) as u8,
                    o + k <= 8,
                    ii < o,
                    (t as u32) >> (k as u32) == 0,
            ;
        } else {
            let j = (k - 1 - (ii - o)) as u8;
            assert(((q >> ((7 - ii) as u8)) & 1u8 == 1u8) == (((t as u32) >> (j as u32)) & 1u32
                == 1u32)) by (bit_vector)
                requires
                    q == p | (t << sh),
                    sh == (8 - o - k) as u8,
                    o + k <= 8,
                    o <= ii < o + k,
                    j == (k - 1 - (ii - o)) as u8,
                    (p as u32) & (0xffu32 >> (o as u32)) == 0,
                    (t as u32) >> (k as u32) == 0,
            ;
        }
    }
    assert(l =~= r);
    assert(((q as u32) & (0xffu32 >> ((o + k) as u32))) == 0) by (bit_vector)
        requires
            q == p | (t << sh),
            sh == (8 - o - k) as u8,
            o + k <= 8,
            (p as u32) & (0xffu32 >> (o as u32)) == 0,
            (t as u32) >> (k as u32) == 0,
    ;
}

/// Bytes turned into bits and back are unchanged.
pub proof fn lemma_bits_to_bytes_of_bytes(raw: Seq<u8>)
    ensures
        bits_to_bytes(bytes_to_bits(raw)) == raw,
{
    let s = bytes_to_bits(raw);
    let l = bits_to_bytes(s);
    assert(s.len() / 8 == raw.len()) by (nonlinear_arith)
        requires
            s.len() == 8 * raw.len(),
    ;
    assert forall|j: int| 0 <= j < raw.len() implies l[j] == raw[j] by {
        assert(8 * j + 8 <= s.len()) by (nonlinear_arith)
            requires
                0 <= j < raw.len(),
                s.len() == 8 * raw.len(),
        ;
        lemma_bytes_to_bits_sub(raw, j, 0, 8);
        assert(byte_bits(raw[j]).subrange(0, 8) =~= byte_bits(raw[j]));
        lemma_byte_bits_roundtrip(raw[j]);
    }
    assert(l =~= raw);
}

/// Bits whose length is a multiple of 8, packed into bytes and read back, are unchanged.
pub proof fn lemma_bytes_to_bits_of_bits(s: Seq<bool>)
    requires
        s.len() % 8 == 0,
    ensures
        bytes_to_bits(bits_to_bytes(s)) == s,
{
    let b = bits_to_bytes(s);
    let l = bytes_to_bits(b);
    assert(8 * (s.len() / 8) == s.len()) by (nonlinear_arith)
        requires
            s.len() % 8 == 0,
    ;
    assert forall|i: int| 0 <= i < s.len() implies l[i] == s[i] by {
        let j = i / 8;
        let o = i % 8;
        assert(0 <= j < s.len() / 8 && 8 * j + 8 <= s.len() && i == 8 * j + o && 0 <= o < 8)
            by (nonlinear_arith)
            requires
                0 <= i < s.len(),
                j == i / 8,
                o == i % 8,
                s.len() % 8 == 0,
        ;
        let t = s.subrange(8 * j, 8 * j + 8);
        lemma_bits_to_u32_bound(t.drop_last());
        lemma_u32_bits_of_bits(t);
        let x = bits_to_u32(t);
        assert(x < 256) by {
            lemma_bits_to_u32_append(t.drop_last(), seq![t.last()]);
            assert(t.drop_last() + seq![t.last()] =~= t);
            let y = bits_to_u32(t.drop_last());
            let z = bits_to_u32(seq![t.last()]);
            assert(seq![t.last()].drop_last() =~= Seq::<bool>::empty());
            assert(z <= 1) by {
                assert(bits_to_u32(Seq::<bool>::empty()) == 0);
                lemma_bit_facts();
            }
            assert(y >> 7u32 == 0 && z <= 1 ==> (y << 1u32) | z < 256) by (bit_vector);
        }
        lemma_byte_of_u32(x);
        assert(b[j] == x as u8);
        assert(l[i] == byte_bit(b[j], o));
        assert(u32_bits(x, 8)[o] == t[o]);
    }
    assert(l =~= s);
}

} // verus!

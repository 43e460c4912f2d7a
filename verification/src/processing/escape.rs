//! Emulation prevention in Annex-B payloads: the byte `0x03` that keeps a
//! start code from appearing inside a NAL unit.
use vstd::prelude::*;

verus! {

/// Whether byte `i` of `buf` is an emulation-prevention byte (`00 00 03`).
pub open spec fn is_emulation_byte(buf: Seq<u8>, i: int) -> bool {
    2 <= i < buf.len() && buf[i - 2] == 0 && buf[i - 1] == 0 && buf[i] == 3
}

/// The payload bytes of an escaped buffer: every emulation-prevention byte removed.
pub open spec fn unescape(buf: Seq<u8>) -> Seq<u8>
    decreases buf.len(),
{
    if buf.len() == 0 {
        Seq::empty()
    } else if is_emulation_byte(buf, buf.len() - 1) {
        unescape(buf.drop_last())
    } else {
        unescape(buf.drop_last()).push(buf.last())
    }
}

/// Whether an escaped buffer ends in two zero bytes.
pub open spec fn ends_in_two_zeros(e: Seq<u8>) -> bool {
    e.len() >= 2 && e[e.len() - 2] == 0 && e[e.len() - 1] == 0
}

/// Escapes payload bytes: a `03` goes in before any byte `<= 3` that follows two zero bytes.
pub open spec fn escape(raw: Seq<u8>) -> Seq<u8>
    decreases raw.len(),
{
    if raw.len() == 0 {
        Seq::empty()
    } else {
        let e = escape(raw.drop_last());
        let b = raw.last();
        if b <= 3 && ends_in_two_zeros(e) {
            e.push(3).push(b)
        } else {
            e.push(b)
        }
    }
}

/// Removing emulation-prevention bytes undoes escaping.
pub proof fn lemma_unescape_escape(raw: Seq<u8>)
    ensures
        unescape(escape(raw)) == raw,
    decreases raw.len(),
{
    if raw.len() > 0 {
        let p = raw.drop_last();
        lemma_unescape_escape(p);
        let e = escape(p);
        let b = raw.last();
        if b <= 3 && ends_in_two_zeros(e) {
            let e3 = e.push(3);
            let eb = e3.push(b);
            assert(eb.drop_last() =~= e3);
            assert(e3.drop_last() =~= e);
            assert(!is_emulation_byte(eb, eb.len() - 1));
            assert(is_emulation_byte(e3, e3.len() - 1));
            assert(unescape(e3) == unescape(e));
            assert(unescape(eb) == unescape(e3).push(b));
            assert(escape(raw) == eb);
        } else {
            let eb = e.push(b);
            assert(eb.drop_last() =~= e);
            assert(!is_emulation_byte(eb, eb.len() - 1));
            assert(unescape(eb) == unescape(e).push(b));
            assert(escape(raw) == eb);
        }
        assert(p.push(b) =~= raw);
    }
}

/// Escaped output never holds `00 00` followed by a byte below 3: no start code
/// (`00 00 01`) and no `00 00 00` / `00 00 02` appear in it.
pub proof fn lemma_escape_has_no_start_code(raw: Seq<u8>)
    ensures
        forall|i: int|
            0 <= i && i + 2 < escape(raw).len() && #[trigger] escape(raw)[i] == 0 && escape(raw)[i
                + 1] == 0 ==> escape(raw)[i + 2] >= 3,
    decreases raw.len(),
{
    if raw.len() > 0 {
        let p = raw.drop_last();
        lemma_escape_has_no_start_code(p);
        let e = escape(p);
        let b = raw.last();
        let out = escape(raw);
        assert forall|i: int|
            0 <= i && i + 2 < out.len() && #[trigger] out[i] == 0 && out[i + 1] == 0 implies out[i
            + 2] >= 3 by {
            if i + 2 < e.len() {
                assert(out[i] == e[i] && out[i + 1] == e[i + 1] && out[i + 2] == e[i + 2]);
            }
        }
    }
}

/// Escaping keeps the first byte in front.
pub proof fn lemma_escape_first(raw: Seq<u8>)
    requires
        raw.len() > 0,
    ensures
        escape(raw).len() > 0,
        escape(raw)[0] == raw[0],
    decreases raw.len(),
{
    let e = escape(raw.drop_last());
    let b = raw.last();
    if raw.len() > 1 {
        lemma_escape_first(raw.drop_last());
        assert(raw.drop_last()[0] == raw[0]);
    } else {
        assert(raw.drop_last() =~= Seq::<u8>::empty());
        assert(e == Seq::<u8>::empty());
        assert(b == raw[0]);
    }
    if b <= 3 && ends_in_two_zeros(e) {
        assert(escape(raw) == e.push(3).push(b));
    } else {
        assert(escape(raw) == e.push(b));
    }
}

/// Behind a non-zero first byte, unescaping the rest gives the rest of the payload.
pub proof fn lemma_unescape_after_first(buf: Seq<u8>)
    requires
        buf.len() > 0,
        buf[0] != 0,
    ensures
        unescape(buf).len() > 0,
        unescape(buf)[0] == buf[0],
        unescape(buf.subrange(1, buf.len() as int)) == unescape(buf).subrange(1, unescape(buf).len() as int),
    decreases buf.len(),
{
    let tail = buf.subrange(1, buf.len() as int);
    if buf.len() == 1 {
        assert(buf.drop_last() =~= Seq::<u8>::empty());
        assert(tail =~= Seq::<u8>::empty());
        assert(unescape(Seq::<u8>::empty()) == Seq::<u8>::empty());
        assert(!is_emulation_byte(buf, 0));
        assert(unescape(buf) == unescape(buf.drop_last()).push(buf.last()));
        assert(unescape(buf) =~= seq![buf[0]]);
        assert(unescape(tail) == Seq::<u8>::empty());
    } else {
        let d = buf.drop_last();
        lemma_unescape_after_first(d);
        assert(tail.drop_last() =~= d.subrange(1, d.len() as int));
        assert(tail.last() == buf.last());
        let n = buf.len() as int;
        assert(is_emulation_byte(tail, tail.len() - 1) == is_emulation_byte(buf, n - 1)) by {
            if n >= 4 {
                assert(tail[n - 4] == buf[n - 3] && tail[n - 3] == buf[n - 2] && tail[n - 2] == buf[n - 1]);
            }
        }
        if is_emulation_byte(buf, n - 1) {
            assert(unescape(buf) == unescape(d));
        } else {
            assert(unescape(buf) == unescape(d).push(buf.last()));
            assert(unescape(buf).subrange(1, unescape(buf).len() as int) =~= unescape(d).subrange(
                1,
                unescape(d).len() as int,
            ).push(buf.last()));
        }
    }
}

/// One more buffer byte adds one payload byte, unless it is an emulation-prevention byte.
pub proof fn lemma_unescape_take_step(buf: Seq<u8>, k: int)
    requires
        0 <= k < buf.len(),
    ensures
        unescape(buf.take(k + 1)) == if is_emulation_byte(buf, k) {
            unescape(buf.take(k))
        } else {
            unescape(buf.take(k)).push(buf[k])
        },
{
    let t = buf.take(k + 1);
    assert(t.drop_last() =~= buf.take(k));
    assert(is_emulation_byte(t, k) == is_emulation_byte(buf, k));
}

/// The payload of a prefix is a prefix of the payload.
pub proof fn lemma_unescape_prefix(buf: Seq<u8>, k: int)
    requires
        0 <= k <= buf.len(),
    ensures
        unescape(buf.take(k)).len() <= unescape(buf).len(),
        unescape(buf).take(unescape(buf.take(k)).len() as int) == unescape(buf.take(k)),
    decreases buf.len() - k,
{
    if k == buf.len() {
        assert(buf.take(k) =~= buf);
        assert(unescape(buf).take(unescape(buf).len() as int) =~= unescape(buf));
    } else {
        lemma_unescape_prefix(buf, k + 1);
        lemma_unescape_take_step(buf, k);
        let a = unescape(buf.take(k));
        let u = unescape(buf);
        if !is_emulation_byte(buf, k) {
            assert(u.take(a.len() as int) =~= u.take((a.len() + 1) as int).take(a.len() as int));
            assert(a.push(buf[k]).take(a.len() as int) =~= a);
        }
    }
}

/// Where the reader stands on a payload byte, that byte is the next payload byte.
pub proof fn lemma_unescape_index(buf: Seq<u8>, k: int)
    requires
        0 <= k < buf.len(),
        !is_emulation_byte(buf, k),
    ensures
        unescape(buf.take(k)).len() < unescape(buf).len(),
        unescape(buf)[unescape(buf.take(k)).len() as int] == buf[k],
{
    lemma_unescape_take_step(buf, k);
    lemma_unescape_prefix(buf, k + 1);
    let a = unescape(buf.take(k));
    assert(unescape(buf).take((a.len() + 1) as int)[a.len() as int] == buf[k]);
}

/// The whole buffer's payload is the payload of its full prefix.
pub proof fn lemma_unescape_take_all(buf: Seq<u8>)
    ensures
        unescape(buf.take(buf.len() as int)) == unescape(buf),
{
    assert(buf.take(buf.len() as int) =~= buf);
}

} // verus!

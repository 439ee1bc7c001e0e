//! The sixteen bytes that stand for a timestamp of the system clock: epoch,
//! time and counter, each with its most significant byte first, so that the
//! bytes order as the timestamps do.

use vstd::prelude::*;

verus! {

/// The length of an encoded timestamp in bytes.
pub const KEY_LEN: usize = 16;

/// The number of values that `width` bytes can spell.
pub open spec fn radix(width: nat) -> nat
    decreases width,
{
    if width == 0 {
        1
    } else {
        256 * radix((width - 1) as nat)
    }
}

/// The number that the bytes `s` spell, the most significant byte first.
pub open spec fn be_value(s: Seq<u8>) -> nat
    decreases s.len(),
{
    if s.len() == 0 {
        0
    } else {
        be_value(s.drop_last()) * 256 + s.last() as nat
    }
}

/// The `width` bytes that spell `v`, the most significant byte first.
pub open spec fn be_bytes(v: nat, width: nat) -> Seq<u8>
    decreases width,
{
    if width == 0 {
        Seq::empty()
    } else {
        be_bytes(v / 256, (width - 1) as nat).push((v % 256) as u8)
    }
}

/// The order of byte strings: `a` comes before `b` where it has the smaller
/// byte at the first place in which the two differ, or where it is `b` cut
/// short.
pub open spec fn lex_before(a: Seq<u8>, b: Seq<u8>) -> bool
    decreases a.len(),
{
    if b.len() == 0 {
        false
    } else if a.len() == 0 {
        true
    } else if a[0] != b[0] {
        a[0] < b[0]
    } else {
        lex_before(a.drop_first(), b.drop_first())
    }
}

/// The bytes of a timestamp: four of the epoch, eight of the time in ticks,
/// four of the counter.
pub open spec fn key_bytes(epoch: u32, ticks: u64, count: u32) -> Seq<u8> {
    be_bytes(epoch as nat, 4) + be_bytes(ticks as nat, 8) + be_bytes(count as nat, 4)
}

/// `be_bytes` gives as many bytes as it is asked for.
pub proof fn lemma_be_bytes_len(v: nat, width: nat)
    ensures
        be_bytes(v, width).len() == width,
    decreases width,
{
    if width > 0 {
        lemma_be_bytes_len(v / 256, (width - 1) as nat);
    }
}

/// The bytes of a number that fits them spell that number.
pub proof fn lemma_be_value_of_bytes(v: nat, width: nat)
    requires
        v < radix(width),
    ensures
        be_value(be_bytes(v, width)) == v,
    decreases width,
{
    if width > 0 {
        let rest = be_bytes(v / 256, (width - 1) as nat);
        lemma_be_value_of_bytes(v / 256, (width - 1) as nat);
        assert(be_bytes(v, width).drop_last() == rest);
    }
}

/// Bytes spell a number that fits them, and are the bytes of that number.
pub proof fn lemma_be_bytes_of_value(s: Seq<u8>)
    ensures
        be_value(s) < radix(s.len()),
        be_bytes(be_value(s), s.len()) == s,
    decreases s.len(),
{
    if s.len() > 0 {
        lemma_be_bytes_of_value(s.drop_last());
        assert(s.drop_last().push(s.last()) == s);
    }
}

/// Two byte strings of one length that spell one number are one string.
pub proof fn lemma_be_value_injective(a: Seq<u8>, b: Seq<u8>)
    requires
        a.len() == b.len(),
        be_value(a) == be_value(b),
    ensures
        a == b,
{
    lemma_be_bytes_of_value(a);
    lemma_be_bytes_of_value(b);
}

/// Of two byte strings of one length, the order is that of all bytes but the
/// last, and that of the last bytes where the others agree.
proof fn lemma_lex_before_by_last(a: Seq<u8>, b: Seq<u8>)
    requires
        a.len() == b.len(),
        a.len() > 0,
    ensures
        lex_before(a, b) <==> lex_before(a.drop_last(), b.drop_last()) || (a.drop_last()
            == b.drop_last() && a.last() < b.last()),
    decreases a.len(),
{
    let (al, bl) = (a.drop_last(), b.drop_last());
    if a.len() == 1 {
        assert(al =~= bl);
        assert(a.drop_first().len() == 0);
        assert(b.drop_first().len() == 0);
        assert(!lex_before(a.drop_first(), b.drop_first()));
        assert(!lex_before(al, bl));
    } else {
        assert(al[0] == a[0] && bl[0] == b[0]);
        if a[0] == b[0] {
            let (af, bf) = (a.drop_first(), b.drop_first());
            lemma_lex_before_by_last(af, bf);
            assert(af.drop_last() =~= al.drop_first());
            assert(bf.drop_last() =~= bl.drop_first());
            assert(af.last() == a.last() && bf.last() == b.last());
            assert(lex_before(a, b) == lex_before(af, bf));
            assert(lex_before(al, bl) == lex_before(al.drop_first(), bl.drop_first()));
            if al.drop_first() == bl.drop_first() {
                assert(al =~= seq![a[0]] + al.drop_first());
                assert(bl =~= seq![b[0]] + bl.drop_first());
            }
        } else {
            assert(lex_before(al, bl) == (a[0] < b[0]));
        }
    }
}

/// Byte strings of one length order as the numbers that they spell.
pub proof fn lemma_lex_before_is_numeric(a: Seq<u8>, b: Seq<u8>)
    requires
        a.len() == b.len(),
    ensures
        lex_before(a, b) <==> be_value(a) < be_value(b),
    decreases a.len(),
{
    if a.len() > 0 {
        lemma_lex_before_by_last(a, b);
        lemma_lex_before_is_numeric(a.drop_last(), b.drop_last());
        if be_value(a.drop_last()) == be_value(b.drop_last()) {
            lemma_be_value_injective(a.drop_last(), b.drop_last());
        }
    }
}

/// Where two byte strings start with parts of one length, they order by
/// those parts, and by what follows where the parts agree.
pub proof fn lemma_lex_before_concat(p: Seq<u8>, r: Seq<u8>, q: Seq<u8>, s: Seq<u8>)
    requires
        p.len() == q.len(),
    ensures
        lex_before(p + r, q + s) <==> lex_before(p, q) || (p == q && lex_before(r, s)),
        p + r == q + s <==> p == q && r == s,
    decreases p.len(),
{
    if p.len() == 0 {
        assert(p + r == r);
        assert(q + s == s);
        assert(p == q);
    } else {
        lemma_lex_before_concat(p.drop_first(), r, q.drop_first(), s);
        assert((p + r).drop_first() == p.drop_first() + r);
        assert((q + s).drop_first() == q.drop_first() + s);
        assert((p + r)[0] == p[0]);
        assert((q + s)[0] == q[0]);
        assert(p =~= seq![p[0]] + p.drop_first());
        assert(q =~= seq![q[0]] + q.drop_first());
        if p + r == q + s {
            assert((p + r).drop_first() == (q + s).drop_first());
        }
    }
}

/// The bytes of two timestamps order as the timestamps do by epoch, then by
/// ticks, then by counter; and the bytes are the same only where all three
/// are.
pub proof fn lemma_key_bytes_order(e1: u32, t1: u64, c1: u32, e2: u32, t2: u64, c2: u32)
    ensures
        lex_before(key_bytes(e1, t1, c1), key_bytes(e2, t2, c2)) <==> e1 < e2 || (e1 == e2 && (t1
            < t2 || (t1 == t2 && c1 < c2))),
        key_bytes(e1, t1, c1) == key_bytes(e2, t2, c2) <==> e1 == e2 && t1 == t2 && c1 == c2,
        key_bytes(e1, t1, c1).len() == 16,
{
    let (pe, pt, pc) = (be_bytes(e1 as nat, 4), be_bytes(t1 as nat, 8), be_bytes(c1 as nat, 4));
    let (qe, qt, qc) = (be_bytes(e2 as nat, 4), be_bytes(t2 as nat, 8), be_bytes(c2 as nat, 4));
    lemma_radix_values();
    lemma_be_bytes_len(e1 as nat, 4);
    lemma_be_bytes_len(t1 as nat, 8);
    lemma_be_bytes_len(c1 as nat, 4);
    lemma_be_bytes_len(e2 as nat, 4);
    lemma_be_bytes_len(t2 as nat, 8);
    lemma_be_bytes_len(c2 as nat, 4);
    lemma_be_value_of_bytes(e1 as nat, 4);
    lemma_be_value_of_bytes(t1 as nat, 8);
    lemma_be_value_of_bytes(c1 as nat, 4);
    lemma_be_value_of_bytes(e2 as nat, 4);
    lemma_be_value_of_bytes(t2 as nat, 8);
    lemma_be_value_of_bytes(c2 as nat, 4);
    lemma_lex_before_is_numeric(pe, qe);
    lemma_lex_before_is_numeric(pt, qt);
    lemma_lex_before_is_numeric(pc, qc);
    lemma_lex_before_concat(pe + pt, pc, qe + qt, qc);
    lemma_lex_before_concat(pe, pt, qe, qt);
}

/// Four bytes spell the numbers below 2^32, and eight those below 2^64.
pub proof fn lemma_radix_values()
    ensures
        radix(4) == 0x1_0000_0000,
        radix(8) == 0x1_0000_0000_0000_0000,
{
    reveal_with_fuel(radix, 9);
}

/// The four bytes of `v`, the most significant first.
pub fn u32_to_be(v: u32) -> (bytes: [u8; 4])
    ensures
        bytes@ == be_bytes(v as nat, 4),
{
    let b3: u8 = (v % 256) as u8;
    let v2: u32 = v / 256;
    let b2: u8 = (v2 % 256) as u8;
    let v1: u32 = v2 / 256;
    let b1: u8 = (v1 % 256) as u8;
    let v0: u32 = v1 / 256;
    let b0: u8 = (v0 % 256) as u8;
    let bytes: [u8; 4] = [b0, b1, b2, b3];
    proof {
        reveal_with_fuel(be_bytes, 5);
        assert(bytes@ =~= be_bytes(v as nat, 4));
    }
    bytes
}

/// The eight bytes of `v`, the most significant first.
pub fn u64_to_be(v: u64) -> (bytes: [u8; 8])
    ensures
        bytes@ == be_bytes(v as nat, 8),
{
    let b7: u8 = (v % 256) as u8;
    let v6: u64 = v / 256;
    let b6: u8 = (v6 % 256) as u8;
    let v5: u64 = v6 / 256;
    let b5: u8 = (v5 % 256) as u8;
    let v4: u64 = v5 / 256;
    let b4: u8 = (v4 % 256) as u8;
    let v3: u64 = v4 / 256;
    let b3: u8 = (v3 % 256) as u8;
    let v2: u64 = v3 / 256;
    let b2: u8 = (v2 % 256) as u8;
    let v1: u64 = v2 / 256;
    let b1: u8 = (v1 % 256) as u8;
    let v0: u64 = v1 / 256;
    let b0: u8 = (v0 % 256) as u8;
    let bytes: [u8; 8] = [b0, b1, b2, b3, b4, b5, b6, b7];
    proof {
        reveal_with_fuel(be_bytes, 9);
        assert(bytes@ =~= be_bytes(v as nat, 8));
    }
    bytes
}

/// The number that four bytes spell, the most significant first.
pub fn u32_from_be(bytes: [u8; 4]) -> (v: u32)
    ensures
        v == be_value(bytes@),
{
    proof {
        let s = bytes@;
        reveal_with_fuel(be_value, 5);
        assert(s.drop_last().drop_last().drop_last().drop_last().len() == 0);
        assert(s.drop_last().last() == s[2]);
        assert(s.drop_last().drop_last().last() == s[1]);
        assert(s.drop_last().drop_last().drop_last().last() == s[0]);
    }
    ((bytes[0] as u32 * 256 + bytes[1] as u32) * 256 + bytes[2] as u32) * 256 + bytes[3] as u32
}

/// The number that eight bytes spell, the most significant first.
pub fn u64_from_be(bytes: [u8; 8]) -> (v: u64)
    ensures
        v == be_value(bytes@),
{
    proof {
        let s7 = bytes@.drop_last();
        let s6 = s7.drop_last();
        let s5 = s6.drop_last();
        let s4 = s5.drop_last();
        let s3 = s4.drop_last();
        let s2 = s3.drop_last();
        let s1 = s2.drop_last();
        reveal_with_fuel(be_value, 9);
        assert(s1.drop_last().len() == 0);
        assert(s7.last() == bytes[6] && s6.last() == bytes[5] && s5.last() == bytes[4]);
        assert(s4.last() == bytes[3] && s3.last() == bytes[2] && s2.last() == bytes[1]);
        assert(s1.last() == bytes[0]);
    }
    let high: u64 = ((bytes[0] as u64 * 256 + bytes[1] as u64) * 256 + bytes[2] as u64) * 256
        + bytes[3] as u64;
    (((high * 256 + bytes[4] as u64) * 256 + bytes[5] as u64) * 256 + bytes[6] as u64) * 256
        + bytes[7] as u64
}

/// The sixteen bytes of a timestamp with these fields.
pub fn encode_key(epoch: u32, ticks: u64, count: u32) -> (bytes: [u8; 16])
    ensures
        bytes@ == key_bytes(epoch, ticks, count),
{
    let e: [u8; 4] = u32_to_be(epoch);
    let t: [u8; 8] = u64_to_be(ticks);
    let c: [u8; 4] = u32_to_be(count);
    let bytes: [u8; 16] = [
        e[0],
        e[1],
        e[2],
        e[3],
        t[0],
        t[1],
        t[2],
        t[3],
        t[4],
        t[5],
        t[6],
        t[7],
        c[0],
        c[1],
        c[2],
        c[3],
    ];
    assert(bytes@ =~= e@ + t@ + c@);
    bytes
}

/// The fields of the timestamp that sixteen bytes stand for: the one
/// timestamp whose bytes they are.
pub fn decode_key(bytes: &[u8; 16]) -> (fields: (u32, u64, u32))
    ensures
        key_bytes(fields.0, fields.1, fields.2) == bytes@,
        fields.0 == be_value(bytes@.subrange(0, 4)),
        fields.1 == be_value(bytes@.subrange(4, 12)),
        fields.2 == be_value(bytes@.subrange(12, 16)),
{
    let e: [u8; 4] = [bytes[0], bytes[1], bytes[2], bytes[3]];
    let t: [u8; 8] = [
        bytes[4],
        bytes[5],
        bytes[6],
        bytes[7],
        bytes[8],
        bytes[9],
        bytes[10],
        bytes[11],
    ];
    let c: [u8; 4] = [bytes[12], bytes[13], bytes[14], bytes[15]];
    proof {
        assert(e@ =~= bytes@.subrange(0, 4));
        assert(t@ =~= bytes@.subrange(4, 12));
        assert(c@ =~= bytes@.subrange(12, 16));
        lemma_be_bytes_of_value(e@);
        lemma_be_bytes_of_value(t@);
        lemma_be_bytes_of_value(c@);
        assert(bytes@ =~= e@ + t@ + c@);
    }
    (u32_from_be(e), u64_from_be(t), u32_from_be(c))
}

} // verus!

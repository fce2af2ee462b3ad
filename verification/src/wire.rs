//! The wire model: what one command looks like on the wire, and what a byte
//! stream decodes to.
//!
//! One command is `[opcode:1][key_length:2 BE][key][value_length:4 BE][value]`,
//! except `Flush` (opcode 4), which is the single opcode byte. An opcode
//! outside the known set {1,2,3,4} is skipped and decoding resyncs at the
//! next byte.

use vstd::prelude::*;
use vstd::utf8::decode_utf8;
use vstd::utf8::encode_utf8;
use vstd::utf8::valid_utf8;
use crate::operations::DbOperation;

verus! {

/// A decoded command as the wire model sees it: keys are the lossily decoded
/// characters, values are raw bytes. Only the four wired variants exist here.
pub enum WireOp {
    Get { key: Seq<char> },
    Put { key: Seq<char>, value: Seq<u8> },
    Delete { key: Seq<char> },
    Flush,
}

/// What `String::from_utf8_lossy` returns on bytes that are not valid UTF-8;
/// a function of the bytes alone.
pub uninterp spec fn utf8_lossy_fallback(bytes: Seq<u8>) -> Seq<char>;

/// What `String::from_utf8_lossy` returns on the given bytes: valid UTF-8
/// decodes without change, anything else goes through the replacement rule
/// the standard library applies.
pub open spec fn utf8_lossy(bytes: Seq<u8>) -> Seq<char> {
    if valid_utf8(bytes) {
        decode_utf8(bytes)
    } else {
        utf8_lossy_fallback(bytes)
    }
}

/// Relies on `String::from_utf8_lossy`: the result depends on the input bytes
/// alone, and bytes that are valid UTF-8 decode without change.
#[verifier::external_body]
pub fn bytes_to_string_lossy(v: &[u8]) -> (r: String)
    ensures
        r@ == utf8_lossy(v@),
        !valid_utf8(v@) ==> r@ == utf8_lossy_fallback(v@),
{
    String::from_utf8_lossy(v).into_owned()
}

/// The two-byte big-endian key length field, as a number.
pub open spec fn be2(b1: u8, b2: u8) -> int {
    (b1 as int) * 0x100 + (b2 as int)
}

/// The four-byte big-endian value length field, as a number.
pub open spec fn be4(b1: u8, b2: u8, b3: u8, b4: u8) -> int {
    (b1 as int) * 0x1000000 + (b2 as int) * 0x10000 + (b3 as int) * 0x100 + (b4 as int)
}

/// The two-byte big-endian encoding of a key length.
pub open spec fn be2_bytes(n: int) -> Seq<u8> {
    seq![(n / 0x100) as u8, (n % 0x100) as u8]
}

/// The four-byte big-endian encoding of a value length.
pub open spec fn be4_bytes(n: int) -> Seq<u8> {
    seq![
        (n / 0x1000000) as u8,
        ((n / 0x10000) % 0x100) as u8,
        ((n / 0x100) % 0x100) as u8,
        (n % 0x100) as u8,
    ]
}

/// Decode a byte sequence greedily from the front: the ordered commands that
/// are complete in it, and the unconsumed suffix (a prefix of an incomplete
/// command). Unrecognized opcode bytes are skipped one at a time.
pub open spec fn wire_decode(s: Seq<u8>) -> (Seq<WireOp>, Seq<u8>)
    decreases s.len(),
{
    if s.len() == 0 {
        (Seq::<WireOp>::empty(), s)
    } else if s[0] == 4u8 {
        let r = wire_decode(s.skip(1));
        (seq![WireOp::Flush] + r.0, r.1)
    } else if s[0] == 1u8 || s[0] == 2u8 || s[0] == 3u8 {
        if s.len() < 3 {
            (Seq::<WireOp>::empty(), s)
        } else {
            let klen = be2(s[1], s[2]);
            if s.len() < 7 + klen {
                (Seq::<WireOp>::empty(), s)
            } else {
                let vlen = be4(s[3 + klen], s[4 + klen], s[5 + klen], s[6 + klen]);
                if s.len() < 7 + klen + vlen {
                    (Seq::<WireOp>::empty(), s)
                } else {
                    let key = utf8_lossy(s.subrange(3, 3 + klen));
                    let value = s.subrange(7 + klen, 7 + klen + vlen);
                    let op = if s[0] == 1u8 {
                        WireOp::Get { key }
                    } else if s[0] == 2u8 {
                        WireOp::Put { key, value }
                    } else {
                        WireOp::Delete { key }
                    };
                    let r = wire_decode(s.skip(7 + klen + vlen));
                    (seq![op] + r.0, r.1)
                }
            }
        }
    } else {
        wire_decode(s.skip(1))
    }
}

/// How an executable command relates to a decoded wire command: same variant,
/// same key characters, same value bytes; a decoded `Get` carries no default.
pub open spec fn denotes(op: DbOperation, w: WireOp) -> bool {
    match w {
        WireOp::Get { key } => op matches DbOperation::Get { key: k, default } && k@ == key
            && default is None,
        WireOp::Put { key, value } => op matches DbOperation::Put { key: k, value: v } && k@
            == key && v@ == value,
        WireOp::Delete { key } => op matches DbOperation::Delete { key: k } && k@ == key,
        WireOp::Flush => op is Flush,
    }
}

/// The wire bytes of a wired command: `Get` and `Delete` carry a zero value
/// length, `Flush` is its opcode byte alone. Unwired variants have no wire
/// form.
pub open spec fn encode_op(op: DbOperation) -> Seq<u8> {
    match op {
        DbOperation::Get { key, .. } => seq![1u8] + be2_bytes(encode_utf8(key@).len() as int)
            + encode_utf8(key@) + be4_bytes(0),
        DbOperation::Put { key, value } => seq![2u8] + be2_bytes(encode_utf8(key@).len() as int)
            + encode_utf8(key@) + be4_bytes(value@.len() as int) + value@,
        DbOperation::Delete { key } => seq![3u8] + be2_bytes(encode_utf8(key@).len() as int)
            + encode_utf8(key@) + be4_bytes(0),
        DbOperation::Flush => seq![4u8],
        _ => Seq::<u8>::empty(),
    }
}

/// Reading the two length bytes written for a key length gives that length
/// back.
pub proof fn lemma_be2_roundtrip(n: int)
    requires
        0 <= n <= 0xFFFF,
    ensures
        be2((n / 0x100) as u8, (n % 0x100) as u8) == n,
{
    vstd::arithmetic::div_mod::lemma_fundamental_div_mod(n, 0x100);
    assert(0 <= n / 0x100 <= 0xFF);
    assert(0 <= n % 0x100 < 0x100);
}

/// Reading the four length bytes written for a value length gives that
/// length back.
pub proof fn lemma_be4_roundtrip(n: int)
    requires
        0 <= n <= 0xFFFFFFFF,
    ensures
        be4(
            (n / 0x1000000) as u8,
            ((n / 0x10000) % 0x100) as u8,
            ((n / 0x100) % 0x100) as u8,
            (n % 0x100) as u8,
        ) == n,
{
    let b1 = n / 0x1000000;
    let b2 = (n / 0x10000) % 0x100;
    let b3 = (n / 0x100) % 0x100;
    let b4 = n % 0x100;
    vstd::arithmetic::div_mod::lemma_fundamental_div_mod(n, 0x100);
    vstd::arithmetic::div_mod::lemma_fundamental_div_mod(n / 0x100, 0x100);
    vstd::arithmetic::div_mod::lemma_div_denominator(n, 0x100, 0x100);
    vstd::arithmetic::div_mod::lemma_fundamental_div_mod(n / 0x10000, 0x100);
    vstd::arithmetic::div_mod::lemma_div_denominator(n, 0x10000, 0x100);
    assert(0 <= b1 <= 0xFF);
    assert(0 <= b2 < 0x100 && 0 <= b3 < 0x100 && 0 <= b4 < 0x100);
    assert(n == 0x100 * (n / 0x100) + b4);
    assert(n / 0x100 == 0x100 * (n / 0x10000) + b3);
    assert(n / 0x10000 == 0x100 * b1 + b2);
}

/// Decoding is insensitive to how the stream is chunked: decoding `s1 + s2`
/// yields the commands of `s1` followed by the commands of `s1`'s unconsumed
/// suffix prepended to `s2`, and the same final suffix. Feeding a stream in
/// any number of pieces therefore yields the same ordered command list as
/// feeding it whole.
pub proof fn lemma_wire_decode_chunked(s1: Seq<u8>, s2: Seq<u8>)
    ensures
        ({
            let r1 = wire_decode(s1);
            let r2 = wire_decode(r1.1 + s2);
            wire_decode(s1 + s2) == (r1.0 + r2.0, r2.1)
        }),
    decreases s1.len(),
{
    let r1 = wire_decode(s1);
    let r2 = wire_decode(r1.1 + s2);
    let s = s1 + s2;
    if s1.len() == 0 {
        assert(s =~= s2);
        assert(r1.1 + s2 =~= s2);
        assert(r1.0 + r2.0 =~= r2.0);
    } else if s1[0] == 4u8 {
        let t = s1.skip(1);
        assert(s.skip(1) =~= t + s2);
        lemma_wire_decode_chunked(t, s2);
        let a = wire_decode(t);
        let b = wire_decode(a.1 + s2);
        assert(r1.0 + r2.0 =~= (seq![WireOp::Flush] + a.0) + b.0);
    } else if s1[0] == 1u8 || s1[0] == 2u8 || s1[0] == 3u8 {
        if s1.len() < 3 {
            assert(r1.1 + s2 =~= s);
            assert(r1.0 + r2.0 =~= r2.0);
        } else {
            let klen = be2(s1[1], s1[2]);
            assert(be2(s[1], s[2]) == klen);
            if s1.len() < 7 + klen {
                assert(r1.1 + s2 =~= s);
                assert(r1.0 + r2.0 =~= r2.0);
            } else {
                let vlen = be4(s1[3 + klen], s1[4 + klen], s1[5 + klen], s1[6 + klen]);
                assert(be4(s[3 + klen], s[4 + klen], s[5 + klen], s[6 + klen]) == vlen);
                if s1.len() < 7 + klen + vlen {
                    assert(r1.1 + s2 =~= s);
                    assert(r1.0 + r2.0 =~= r2.0);
                } else {
                    let frame = 7 + klen + vlen;
                    assert(s.subrange(3, 3 + klen) =~= s1.subrange(3, 3 + klen));
                    assert(s.subrange(7 + klen, frame) =~= s1.subrange(7 + klen, frame));
                    let t = s1.skip(frame);
                    assert(s.skip(frame) =~= t + s2);
                    lemma_wire_decode_chunked(t, s2);
                    let a = wire_decode(t);
                    let b = wire_decode(a.1 + s2);
                    assert(wire_decode(s).0 =~= r1.0 + b.0);
                    assert(r1.0 + r2.0 =~= r1.0 + b.0);
                }
            }
        }
    } else {
        let t = s1.skip(1);
        assert(s.skip(1) =~= t + s2);
        lemma_wire_decode_chunked(t, s2);
    }
}

/// One complete frame at the front of the stream decodes to exactly its
/// command, followed by whatever the rest decodes to.
pub proof fn lemma_decode_full_frame(
    op: u8,
    kb1: u8,
    kb2: u8,
    key: Seq<u8>,
    vb: (u8, u8, u8, u8),
    value: Seq<u8>,
    rest: Seq<u8>,
)
    requires
        op == 1 || op == 2 || op == 3,
        be2(kb1, kb2) == key.len(),
        be4(vb.0, vb.1, vb.2, vb.3) == value.len(),
    ensures
        ({
            let s = seq![op, kb1, kb2] + key + seq![vb.0, vb.1, vb.2, vb.3] + value + rest;
            let w = if op == 1 {
                WireOp::Get { key: utf8_lossy(key) }
            } else if op == 2 {
                WireOp::Put { key: utf8_lossy(key), value }
            } else {
                WireOp::Delete { key: utf8_lossy(key) }
            };
            wire_decode(s) == (seq![w] + wire_decode(rest).0, wire_decode(rest).1)
        }),
{
    let s = seq![op, kb1, kb2] + key + seq![vb.0, vb.1, vb.2, vb.3] + value + rest;
    let klen = key.len() as int;
    let vlen = value.len() as int;
    assert(s[0] == op && s[1] == kb1 && s[2] == kb2);
    assert(s.len() == 7 + klen + vlen + rest.len());
    assert(s[3 + klen] == vb.0);
    assert(s[4 + klen] == vb.1);
    assert(s[5 + klen] == vb.2);
    assert(s[6 + klen] == vb.3);
    assert(be2(s[1], s[2]) == klen);
    assert(be4(s[3 + klen], s[4 + klen], s[5 + klen], s[6 + klen]) == vlen);
    assert(s.subrange(3, 3 + klen) =~= key);
    assert(s.subrange(7 + klen, 7 + klen + vlen) =~= value);
    assert(s.skip(7 + klen + vlen) =~= rest);
}


/// Corollary at a concrete split point: cutting a stream anywhere and
/// feeding the two halves in turn yields the same ordered command list and
/// the same unconsumed suffix as feeding the stream whole.
pub proof fn lemma_wire_decode_split(s: Seq<u8>, k: int)
    requires
        0 <= k <= s.len(),
    ensures
        ({
            let first = wire_decode(s.take(k));
            let second = wire_decode(first.1 + s.skip(k));
            wire_decode(s) == (first.0 + second.0, second.1)
        }),
{
    assert(s.take(k) + s.skip(k) =~= s);
    lemma_wire_decode_chunked(s.take(k), s.skip(k));
}


/// A single unrecognized opcode byte is skipped without affecting what the
/// rest of the stream decodes to.
pub proof fn lemma_resync_skips_bad_byte(b: u8, s: Seq<u8>)
    requires
        !(b == 1 || b == 2 || b == 3 || b == 4),
    ensures
        wire_decode(seq![b] + s) == wire_decode(s),
{
    let t = seq![b] + s;
    assert(t[0] == b);
    assert(t.skip(1) =~= s);
}

/// One unrecognized opcode byte followed by the `Flush` opcode decodes to
/// exactly one command, `Flush`, with the bad byte silently skipped.
pub proof fn lemma_bad_byte_then_flush(b: u8)
    requires
        !(b == 1 || b == 2 || b == 3 || b == 4),
    ensures
        wire_decode(seq![b, 4u8]) == (seq![WireOp::Flush], Seq::<u8>::empty()),
{
    lemma_resync_skips_bad_byte(b, seq![4u8]);
    assert(seq![b] + seq![4u8] =~= seq![b, 4u8]);
    let u = seq![4u8];
    let e = Seq::<u8>::empty();
    assert(u[0] == 4u8);
    assert(u.skip(1) =~= e);
    assert(wire_decode(e) == (Seq::<WireOp>::empty(), e));
    assert(wire_decode(u).0 =~= seq![WireOp::Flush]);
    assert(wire_decode(u).1 =~= e);
}

} // verus!

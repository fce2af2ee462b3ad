//! The command encoder: the inverse of the protocol decoder for the four
//! wired variants. `Flush` is the minimal one-byte frame; `Get` and `Delete`
//! carry a zero value length; unwired variants have no wire form and are
//! rejected before any byte is produced.

use vstd::prelude::*;
use vstd::string::StrSliceExecFns;
use vstd::utf8::encode_utf8;
use crate::operations::DbOperation;
use crate::wire::be2_bytes;
use crate::wire::be4_bytes;
use crate::wire::denotes;
use crate::wire::encode_op;
use crate::wire::lemma_be2_roundtrip;
use crate::wire::lemma_be4_roundtrip;
use crate::wire::wire_decode;
use crate::wire::WireOp;

verus! {

/// A command the encoder can serialize: one of the four wired variants whose
/// key and value fit the wire length fields.
pub open spec fn encodable(op: &DbOperation) -> bool {
    match op {
        DbOperation::Get { key, .. } => encode_utf8(key@).len() <= 0xFFFF,
        DbOperation::Put { key, value } => encode_utf8(key@).len() <= 0xFFFF && value@.len()
            <= 0xFFFFFFFF,
        DbOperation::Delete { key } => encode_utf8(key@).len() <= 0xFFFF,
        DbOperation::Flush => true,
        _ => false,
    }
}

/// Serialize a wired command into its wire bytes.
pub fn serialize_command(op: &DbOperation) -> (bytes: Vec<u8>)
    requires
        encodable(op),
    ensures
        bytes@ == encode_op(*op),
{
    let mut bytes: Vec<u8> = Vec::new();
    match op {
        DbOperation::Put { key, value } => {
            bytes.push(2);
            push_key_fields(&mut bytes, key);
            let vl = value.len() as u32;
            push_value_length(&mut bytes, vl);
            bytes.extend_from_slice(value.as_slice());
            proof {
                assert(bytes@ =~= encode_op(*op));
            }
        },
        DbOperation::Get { key, .. } => {
            bytes.push(1);
            push_key_fields(&mut bytes, key);
            push_value_length(&mut bytes, 0);
            proof {
                assert(bytes@ =~= encode_op(*op));
            }
        },
        DbOperation::Delete { key } => {
            bytes.push(3);
            push_key_fields(&mut bytes, key);
            push_value_length(&mut bytes, 0);
            proof {
                assert(bytes@ =~= encode_op(*op));
            }
        },
        _ => {
            bytes.push(4);
            proof {
                assert(bytes@ =~= encode_op(*op));
            }
        },
    }
    bytes
}

/// Serialize any command: wire bytes for an encodable command, nothing for a
/// command that is unwired or too large for the wire length fields.
pub fn try_serialize_command(op: &DbOperation) -> (r: Option<Vec<u8>>)
    ensures
        match r {
            Some(bytes) => encodable(op) && bytes@ == encode_op(*op),
            None => !encodable(op),
        },
{
    let fits = match op {
        DbOperation::Get { key, .. } => key.as_str().as_bytes_vec().len() <= 0xFFFF,
        DbOperation::Put { key, value } => key.as_str().as_bytes_vec().len() <= 0xFFFF
            && value.len() <= 0xFFFFFFFF,
        DbOperation::Delete { key } => key.as_str().as_bytes_vec().len() <= 0xFFFF,
        DbOperation::Flush => true,
        _ => false,
    };
    if fits {
        Some(serialize_command(op))
    } else {
        None
    }
}

/// Append the key length field and the key bytes.
fn push_key_fields(bytes: &mut Vec<u8>, key: &String)
    requires
        encode_utf8(key@).len() <= 0xFFFF,
    ensures
        final(bytes)@ == old(bytes)@ + be2_bytes(encode_utf8(key@).len() as int) + encode_utf8(
            key@,
        ),
{
    let mut kb = key.as_str().as_bytes_vec();
    let kl = kb.len() as u16;
    bytes.push((kl / 256) as u8);
    bytes.push((kl % 256) as u8);
    proof {
        lemma_be2_roundtrip(kl as int);
    }
    bytes.append(&mut kb);
    proof {
        assert(final(bytes)@ =~= old(bytes)@ + be2_bytes(encode_utf8(key@).len() as int)
            + encode_utf8(key@));
    }
}

/// Append the four-byte big-endian value length field.
fn push_value_length(bytes: &mut Vec<u8>, vl: u32)
    ensures
        final(bytes)@ == old(bytes)@ + be4_bytes(vl as int),
{
    bytes.push((vl / 16777216) as u8);
    bytes.push(((vl / 65536) % 256) as u8);
    bytes.push(((vl / 256) % 256) as u8);
    bytes.push((vl % 256) as u8);
    proof {
        assert(final(bytes)@ =~= old(bytes)@ + be4_bytes(vl as int));
    }
}

/// Encoding then decoding round-trips every wired command: the wire bytes of
/// an encodable command decode to exactly that command and leave nothing
/// pending. A decoded `Get` carries no default, so the law asks the same of
/// its input.
pub proof fn lemma_encode_then_decode(op: DbOperation)
    requires
        encodable(&op),
        op matches DbOperation::Get { default, .. } ==> default is None,
    ensures
        ({
            let d = wire_decode(encode_op(op));
            &&& d.0.len() == 1
            &&& denotes(op, d.0[0])
            &&& d.1 == Seq::<u8>::empty()
        }),
{
    broadcast use vstd::utf8::encode_utf8_valid_utf8;
    broadcast use vstd::utf8::encode_utf8_decode_utf8;

    let s = encode_op(op);
    let e = Seq::<u8>::empty();
    assert(wire_decode(e) == (Seq::<WireOp>::empty(), e));
    match op {
        DbOperation::Flush => {
            assert(s =~= seq![4u8]);
            assert(s.skip(1) =~= e);
            assert(wire_decode(s).0 =~= seq![WireOp::Flush]);
            assert(wire_decode(s).1 =~= e);
        },
        DbOperation::Get { key, .. } => {
            lemma_decode_encoded_frame(1u8, encode_utf8(key@), e, s);
        },
        DbOperation::Put { key, value } => {
            lemma_decode_encoded_frame(2u8, encode_utf8(key@), value@, s);
        },
        DbOperation::Delete { key } => {
            lemma_decode_encoded_frame(3u8, encode_utf8(key@), e, s);
        },
        _ => {
            assert(false);
        },
    }
}

/// The wire bytes of several commands, encoded back-to-back.
pub open spec fn encode_ops(ops: Seq<DbOperation>) -> Seq<u8>
    decreases ops.len(),
{
    if ops.len() == 0 {
        Seq::<u8>::empty()
    } else {
        encode_op(ops[0]) + encode_ops(ops.skip(1))
    }
}

/// Every command in the sequence can be serialized, and no `Get` carries a
/// default.
pub open spec fn all_encodable(ops: Seq<DbOperation>) -> bool {
    forall|i: int|
        0 <= i < ops.len() ==> encodable(&ops[i]) && (#[trigger] ops[i] matches
            DbOperation::Get { default, .. } ==> default is None)
}

/// A sequence of commands encoded back-to-back decodes to exactly that
/// sequence, in order, with nothing left pending. Together with the decoder's
/// chunk-insensitivity this pins what any client sees: however the stream is
/// cut, the same ordered command list comes out.
pub proof fn lemma_encode_stream_decodes(ops: Seq<DbOperation>)
    requires
        all_encodable(ops),
    ensures
        ({
            let d = wire_decode(encode_ops(ops));
            &&& d.0.len() == ops.len()
            &&& forall|i: int| 0 <= i < ops.len() ==> denotes(#[trigger] ops[i], d.0[i])
            &&& d.1 == Seq::<u8>::empty()
        }),
    decreases ops.len(),
{
    let e = Seq::<u8>::empty();
    if ops.len() == 0 {
        assert(wire_decode(e) == (Seq::<WireOp>::empty(), e));
    } else {
        let head = encode_op(ops[0]);
        let tail = encode_ops(ops.skip(1));
        lemma_encode_then_decode(ops[0]);
        lemma_encode_stream_decodes(ops.skip(1));
        crate::wire::lemma_wire_decode_chunked(head, tail);
        let r1 = wire_decode(head);
        assert(r1.1 + tail =~= tail);
        let r2 = wire_decode(tail);
        let d = wire_decode(head + tail);
        assert(d == (r1.0 + r2.0, r2.1));
        assert(d.0.len() == 1 + r2.0.len());
        assert forall|i: int| 0 <= i < ops.len() implies denotes(
            #[trigger] ops[i],
            d.0[i],
        ) by {
            if i == 0 {
                assert(d.0[0] == r1.0[0]);
            } else {
                assert(d.0[i] == r2.0[i - 1]);
                assert(ops.skip(1)[i - 1] == ops[i]);
            }
        }
    }
}

/// A freshly encoded keyed frame decodes to its one command.
proof fn lemma_decode_encoded_frame(opc: u8, kb: Seq<u8>, value: Seq<u8>, s: Seq<u8>)
    requires
        opc == 1 || opc == 2 || opc == 3,
        kb.len() <= 0xFFFF,
        value.len() <= 0xFFFFFFFF,
        s == seq![opc] + be2_bytes(kb.len() as int) + kb + be4_bytes(value.len() as int) + value,
    ensures
        ({
            let w = if opc == 1 {
                WireOp::Get { key: crate::wire::utf8_lossy(kb) }
            } else if opc == 2 {
                WireOp::Put { key: crate::wire::utf8_lossy(kb), value }
            } else {
                WireOp::Delete { key: crate::wire::utf8_lossy(kb) }
            };
            wire_decode(s) == (seq![w], Seq::<u8>::empty())
        }),
{
    let klen = kb.len() as int;
    let vlen = value.len() as int;
    lemma_be2_roundtrip(klen);
    lemma_be4_roundtrip(vlen);
    let kb1 = (klen / 0x100) as u8;
    let kb2 = (klen % 0x100) as u8;
    let vb1 = (vlen / 0x1000000) as u8;
    let vb2 = ((vlen / 0x10000) % 0x100) as u8;
    let vb3 = ((vlen / 0x100) % 0x100) as u8;
    let vb4 = (vlen % 0x100) as u8;
    let e = Seq::<u8>::empty();
    assert(s =~= seq![opc, kb1, kb2] + kb + seq![vb1, vb2, vb3, vb4] + value + e);
    crate::wire::lemma_decode_full_frame(opc, kb1, kb2, kb, (vb1, vb2, vb3, vb4), value, e);
    assert(wire_decode(e) == (Seq::<WireOp>::empty(), e));
    let w = if opc == 1 {
        WireOp::Get { key: crate::wire::utf8_lossy(kb) }
    } else if opc == 2 {
        WireOp::Put { key: crate::wire::utf8_lossy(kb), value }
    } else {
        WireOp::Delete { key: crate::wire::utf8_lossy(kb) }
    };
    assert(wire_decode(s).0 =~= seq![w]);
}

} // verus!

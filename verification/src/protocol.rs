//! The incremental protocol decoder: a per-connection state machine that
//! consumes raw bytes and emits zero or more complete commands.
//!
//! The decoder never consumes bytes a stage cannot fully commit: a short read
//! leaves the stage and the unconsumed bytes exactly as they were, and the
//! next feed resumes from the same point. Its contract is stated against
//! [`wire_decode`]: at any time the parser is equivalent to the byte sequence
//! [`ProtocolParser::pending`] it has consumed but not yet attributed to a
//! completed command.

use vstd::prelude::*;
use crate::operations::DbOperation;
use crate::wire::be2;
use crate::wire::be4;
use crate::wire::bytes_to_string_lossy;
use crate::wire::denotes;
use crate::wire::lemma_decode_full_frame;
use crate::wire::wire_decode;
use crate::wire::WireOp;

verus! {

/// The parsing stage, with any stage-local expected length.
enum ParseState {
    ReadingOpCode,
    ReadingKeyLength,
    ReadingKey { expected: u16 },
    ReadingValueLength,
    ReadingValue { expected: u32 },
}

/// Per-connection parse state: the accumulation buffer of unconsumed bytes,
/// the current stage, and the opcode, length fields and key captured so far
/// for the in-progress command.
pub struct ProtocolParser {
    state: ParseState,
    buffer: Vec<u8>,
    current_opcode: Option<u8>,
    current_key: Option<Vec<u8>>,
    key_len_bytes: (u8, u8),
    value_len_bytes: (u8, u8, u8, u8),
}

impl ProtocolParser {
    /// The raw bytes of the in-progress command that earlier stages already
    /// committed, reconstructed from the captured fields.
    spec fn prefix_bytes(&self) -> Seq<u8> {
        match self.state {
            ParseState::ReadingOpCode => Seq::<u8>::empty(),
            ParseState::ReadingKeyLength => seq![self.current_opcode->0],
            ParseState::ReadingKey { .. } => seq![
                self.current_opcode->0,
                self.key_len_bytes.0,
                self.key_len_bytes.1,
            ],
            ParseState::ReadingValueLength => seq![
                self.current_opcode->0,
                self.key_len_bytes.0,
                self.key_len_bytes.1,
            ] + self.current_key->0@,
            ParseState::ReadingValue { .. } => seq![
                self.current_opcode->0,
                self.key_len_bytes.0,
                self.key_len_bytes.1,
            ] + self.current_key->0@ + seq![
                self.value_len_bytes.0,
                self.value_len_bytes.1,
                self.value_len_bytes.2,
                self.value_len_bytes.3,
            ],
        }
    }

    /// All bytes received but not yet attributed to a completed command. The
    /// parser behaves exactly like a fresh parser holding these bytes.
    pub closed spec fn pending(&self) -> Seq<u8> {
        self.prefix_bytes() + self.buffer@
    }

    /// The captured fields are consistent with the current stage.
    pub closed spec fn wf(&self) -> bool {
        match self.state {
            ParseState::ReadingOpCode => true,
            ParseState::ReadingKeyLength => self.current_opcode matches Some(op) && (op == 1 || op
                == 2 || op == 3),
            ParseState::ReadingKey { expected } => (self.current_opcode matches Some(op) && (op
                == 1 || op == 2 || op == 3)) && be2(self.key_len_bytes.0, self.key_len_bytes.1)
                == expected as int,
            ParseState::ReadingValueLength => (self.current_opcode matches Some(op) && (op == 1
                || op == 2 || op == 3)) && (self.current_key matches Some(k) && be2(
                self.key_len_bytes.0,
                self.key_len_bytes.1,
            ) == k@.len()),
            ParseState::ReadingValue { expected } => (self.current_opcode matches Some(op) && (op
                == 1 || op == 2 || op == 3)) && (self.current_key matches Some(k) && be2(
                self.key_len_bytes.0,
                self.key_len_bytes.1,
            ) == k@.len()) && be4(
                self.value_len_bytes.0,
                self.value_len_bytes.1,
                self.value_len_bytes.2,
                self.value_len_bytes.3,
            ) == expected as int,
        }
    }

    /// A fresh parser, waiting for an opcode with nothing buffered.
    pub fn new() -> (r: ProtocolParser)
        ensures
            r.wf(),
            r.pending() == Seq::<u8>::empty(),
    {
        let r = ProtocolParser {
            state: ParseState::ReadingOpCode,
            buffer: Vec::new(),
            current_opcode: None,
            current_key: None,
            key_len_bytes: (0, 0),
            value_len_bytes: (0, 0, 0, 0),
        };
        proof {
            assert(r.pending() =~= Seq::<u8>::empty());
        }
        r
    }

    /// Append `new_bytes` to the buffer, then decode as many complete
    /// commands as the accumulated bytes hold. Exactly the commands of
    /// [`wire_decode`] over the pending bytes come out, in order, and the
    /// undecodable suffix stays pending for the next call.
    pub fn feed_bytes(&mut self, new_bytes: &[u8]) -> (cmds: Vec<DbOperation>)
        requires
            old(self).wf(),
        ensures
            final(self).wf(),
            ({
                let d = wire_decode(old(self).pending() + new_bytes@);
                &&& final(self).pending() == d.1
                &&& cmds@.len() == d.0.len()
                &&& forall|i: int| 0 <= i < d.0.len() ==> denotes(#[trigger] cmds@[i], d.0[i])
            }),
    {
        self.buffer.extend_from_slice(new_bytes);
        proof {
            assert(self.pending() =~= old(self).pending() + new_bytes@);
        }
        let ghost d = wire_decode(old(self).pending() + new_bytes@);
        let mut cmds: Vec<DbOperation> = Vec::new();
        loop
            invariant_except_break
                self.wf(),
                cmds@.len() <= d.0.len(),
                wire_decode(self.pending()) == (d.0.skip(cmds@.len() as int), d.1),
                forall|i: int| 0 <= i < cmds@.len() ==> denotes(#[trigger] cmds@[i], d.0[i]),
            ensures
                self.wf(),
                self.pending() == d.1,
                cmds@.len() == d.0.len(),
                forall|i: int| 0 <= i < d.0.len() ==> denotes(#[trigger] cmds@[i], d.0[i]),
            decreases self.pending().len(),
        {
            let ghost n = cmds@.len() as int;
            let r = self.try_parse_command();
            match r {
                Some(op) => {
                    proof {
                        assert(d.0.skip(n).len() >= 1);
                        assert(d.0.skip(n)[0] == d.0[n]);
                        assert(d.0.skip(n).skip(1) =~= d.0.skip(n + 1));
                    }
                    cmds.push(op);
                },
                None => {
                    proof {
                        assert(d.0.skip(n) =~= Seq::<WireOp>::empty());
                        assert(d.0.skip(n).len() == d.0.len() - n);
                        assert(d.0.len() == n);
                    }
                    break ;
                },
            }
        }
        cmds
    }

    /// Advance the state machine until it either completes one command or
    /// runs out of bytes for the current stage. Unrecognized opcode bytes are
    /// skipped on the way.
    fn try_parse_command(&mut self) -> (r: Option<DbOperation>)
        requires
            old(self).wf(),
        ensures
            final(self).wf(),
            match r {
                Some(op) => ({
                    let d = wire_decode(old(self).pending());
                    &&& d.0.len() >= 1
                    &&& denotes(op, d.0[0])
                    &&& wire_decode(final(self).pending()) == (d.0.skip(1), d.1)
                    &&& final(self).pending().len() < old(self).pending().len()
                }),
                None => wire_decode(old(self).pending()) == (
                    Seq::<WireOp>::empty(),
                    final(self).pending(),
                ),
            },
    {
        loop
            invariant
                self.wf(),
                wire_decode(self.pending()) == wire_decode(old(self).pending()),
                self.pending().len() <= old(self).pending().len(),
            decreases self.buffer@.len() * 10 + stage_rank(self.state),
        {
            let ghost pend = self.pending();
            match self.state {
                ParseState::ReadingOpCode => {
                    if self.buffer.len() < 1 {
                        proof {
                            assert(pend =~= self.buffer@);
                        }
                        return None;
                    }
                    let opcode = self.buffer.remove(0);
                    proof {
                        assert(pend[0] == opcode);
                        assert(pend.skip(1) =~= self.buffer@);
                    }
                    if opcode == 4 {
                        proof {
                            let rec = wire_decode(self.buffer@);
                            assert(wire_decode(pend).0 == seq![WireOp::Flush] + rec.0);
                            assert(wire_decode(pend).0[0] == WireOp::Flush);
                            assert(wire_decode(pend).0.skip(1) =~= rec.0);
                            assert(self.pending() =~= self.buffer@);
                        }
                        return Some(DbOperation::Flush);
                    } else if opcode == 1 || opcode == 2 || opcode == 3 {
                        self.current_opcode = Some(opcode);
                        self.state = ParseState::ReadingKeyLength;
                        proof {
                            assert(self.pending() =~= pend);
                        }
                    } else {
                        self.state = ParseState::ReadingOpCode;
                        proof {
                            assert(self.pending() =~= self.buffer@);
                        }
                    }
                },
                ParseState::ReadingKeyLength => {
                    if self.buffer.len() < 2 {
                        proof {
                            lemma_stall_key_length(self.current_opcode->0, self.buffer@);
                            assert(pend =~= seq![self.current_opcode->0] + self.buffer@);
                        }
                        return None;
                    }
                    let b1 = self.buffer.remove(0);
                    let b2 = self.buffer.remove(0);
                    let key_length: u16 = (b1 as u16) * 256 + (b2 as u16);
                    self.key_len_bytes = (b1, b2);
                    self.state = ParseState::ReadingKey { expected: key_length };
                    proof {
                        assert(self.pending() =~= pend);
                    }
                },
                ParseState::ReadingKey { expected } => {
                    if self.buffer.len() < expected as usize {
                        proof {
                            lemma_stall_key(
                                self.current_opcode->0,
                                self.key_len_bytes.0,
                                self.key_len_bytes.1,
                                self.buffer@,
                            );
                        }
                        return None;
                    }
                    let key_bytes = take_front(&mut self.buffer, expected as usize);
                    self.current_key = Some(key_bytes);
                    self.state = ParseState::ReadingValueLength;
                    proof {
                        assert(self.pending() =~= pend);
                    }
                },
                ParseState::ReadingValueLength => {
                    if self.buffer.len() < 4 {
                        proof {
                            lemma_stall_value_length(
                                self.current_opcode->0,
                                self.key_len_bytes.0,
                                self.key_len_bytes.1,
                                self.current_key->0@,
                                self.buffer@,
                            );
                        }
                        return None;
                    }
                    let b1 = self.buffer.remove(0);
                    let b2 = self.buffer.remove(0);
                    let b3 = self.buffer.remove(0);
                    let b4 = self.buffer.remove(0);
                    let value_length: u32 = (b1 as u32) * 16777216 + (b2 as u32) * 65536 + (
                    b3 as u32) * 256 + (b4 as u32);
                    self.value_len_bytes = (b1, b2, b3, b4);
                    self.state = ParseState::ReadingValue { expected: value_length };
                    proof {
                        assert(self.pending() =~= pend);
                    }
                },
                ParseState::ReadingValue { expected } => {
                    if self.buffer.len() < expected as usize {
                        proof {
                            lemma_stall_value(
                                self.current_opcode->0,
                                self.key_len_bytes.0,
                                self.key_len_bytes.1,
                                self.current_key->0@,
                                self.value_len_bytes,
                                self.buffer@,
                            );
                        }
                        return None;
                    }
                    let value_bytes = take_front(&mut self.buffer, expected as usize);
                    let opcode = self.current_opcode.unwrap();
                    let key_taken = self.current_key.take();
                    let key_vec = key_taken.unwrap();
                    let key = bytes_to_string_lossy(key_vec.as_slice());
                    proof {
                        lemma_decode_full_frame(
                            opcode,
                            self.key_len_bytes.0,
                            self.key_len_bytes.1,
                            key_vec@,
                            self.value_len_bytes,
                            value_bytes@,
                            self.buffer@,
                        );
                        assert(pend =~= seq![
                            opcode,
                            self.key_len_bytes.0,
                            self.key_len_bytes.1,
                        ] + key_vec@ + seq![
                            self.value_len_bytes.0,
                            self.value_len_bytes.1,
                            self.value_len_bytes.2,
                            self.value_len_bytes.3,
                        ] + value_bytes@ + self.buffer@);
                    }
                    let command = if opcode == 1 {
                        DbOperation::Get { key, default: None }
                    } else if opcode == 2 {
                        DbOperation::Put { key, value: value_bytes }
                    } else {
                        DbOperation::Delete { key }
                    };
                    self.state = ParseState::ReadingOpCode;
                    proof {
                        let rec = wire_decode(self.buffer@);
                        assert(self.pending() =~= self.buffer@);
                        assert(wire_decode(pend).0.skip(1) =~= rec.0);
                        assert(denotes(command, wire_decode(pend).0[0]));
                    }
                    return Some(command);
                },
            }
        }
    }
}

/// The loop measure of a stage: every stage transition consumes enough bytes
/// to shrink `buffer.len() * 10 + stage_rank`.
spec fn stage_rank(s: ParseState) -> int {
    match s {
        ParseState::ReadingOpCode => 0,
        ParseState::ReadingKeyLength => 9,
        ParseState::ReadingKey { .. } => 8,
        ParseState::ReadingValueLength => 7,
        ParseState::ReadingValue { .. } => 6,
    }
}

/// Remove and return the first `n` bytes of `v`.
fn take_front(v: &mut Vec<u8>, n: usize) -> (out: Vec<u8>)
    requires
        n <= old(v)@.len(),
    ensures
        out@ == old(v)@.subrange(0, n as int),
        final(v)@ == old(v)@.skip(n as int),
        out@.len() == n,
{
    let mut tail = v.split_off(n);
    core::mem::swap(v, &mut tail);
    proof {
        assert(old(v)@.subrange(n as int, old(v)@.len() as int) =~= old(v)@.skip(n as int));
    }
    tail
}

/// A parser blocked waiting for the key length field sits on a stalled
/// prefix: decoding it yields no commands and consumes nothing.
proof fn lemma_stall_key_length(op: u8, buffer: Seq<u8>)
    requires
        op == 1 || op == 2 || op == 3,
        buffer.len() < 2,
    ensures
        wire_decode(seq![op] + buffer) == (Seq::<WireOp>::empty(), seq![op] + buffer),
{
    let s = seq![op] + buffer;
    assert(s[0] == op);
    assert(s.len() < 3);
}

/// A parser blocked waiting for key bytes sits on a stalled prefix.
proof fn lemma_stall_key(op: u8, kb1: u8, kb2: u8, buffer: Seq<u8>)
    requires
        op == 1 || op == 2 || op == 3,
        buffer.len() < be2(kb1, kb2),
    ensures
        wire_decode(seq![op, kb1, kb2] + buffer) == (
            Seq::<WireOp>::empty(),
            seq![op, kb1, kb2] + buffer,
        ),
{
    let s = seq![op, kb1, kb2] + buffer;
    assert(s[0] == op && s[1] == kb1 && s[2] == kb2);
    assert(s.len() < 7 + be2(s[1], s[2]));
}

/// A parser blocked waiting for the value length field sits on a stalled
/// prefix.
proof fn lemma_stall_value_length(op: u8, kb1: u8, kb2: u8, key: Seq<u8>, buffer: Seq<u8>)
    requires
        op == 1 || op == 2 || op == 3,
        be2(kb1, kb2) == key.len(),
        buffer.len() < 4,
    ensures
        wire_decode(seq![op, kb1, kb2] + key + buffer) == (
            Seq::<WireOp>::empty(),
            seq![op, kb1, kb2] + key + buffer,
        ),
{
    let s = seq![op, kb1, kb2] + key + buffer;
    assert(s[0] == op && s[1] == kb1 && s[2] == kb2);
    assert(s.len() == 3 + key.len() + buffer.len());
    assert(s.len() < 7 + be2(s[1], s[2]));
}

/// A parser blocked waiting for value bytes sits on a stalled prefix.
proof fn lemma_stall_value(
    op: u8,
    kb1: u8,
    kb2: u8,
    key: Seq<u8>,
    vb: (u8, u8, u8, u8),
    buffer: Seq<u8>,
)
    requires
        op == 1 || op == 2 || op == 3,
        be2(kb1, kb2) == key.len(),
        buffer.len() < be4(vb.0, vb.1, vb.2, vb.3),
    ensures
        wire_decode(seq![op, kb1, kb2] + key + seq![vb.0, vb.1, vb.2, vb.3] + buffer) == (
            Seq::<WireOp>::empty(),
            seq![op, kb1, kb2] + key + seq![vb.0, vb.1, vb.2, vb.3] + buffer,
        ),
{
    let s = seq![op, kb1, kb2] + key + seq![vb.0, vb.1, vb.2, vb.3] + buffer;
    let klen = key.len() as int;
    assert(s[0] == op && s[1] == kb1 && s[2] == kb2);
    assert(s.len() == 7 + key.len() + buffer.len());
    assert(s[3 + klen] == vb.0);
    assert(s[4 + klen] == vb.1);
    assert(s[5 + klen] == vb.2);
    assert(s[6 + klen] == vb.3);
    assert(s.len() < 7 + be2(s[1], s[2]) + be4(s[3 + klen], s[4 + klen], s[5 + klen], s[6 + klen]));
}

} // verus!

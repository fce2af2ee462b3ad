//! The per-connection command execution path: execute each decoded command
//! against the store and render one ASCII response line per command, in
//! command order.
//!
//! Responses are deliberately textual while requests are binary: `DATA:
//! <value-as-text>` for a successful read, `OK` for a successful write or
//! flush, `NOT_FOUND` for an absent key, `ERROR: <message>` for any other
//! failure, each newline-terminated.

use vstd::prelude::*;
use vstd::string::StrSliceExecFns;
use vstd::utf8::encode_utf8;
use crate::operations::DbOperation;
use crate::operations::DbResult;
use crate::protocol::ProtocolParser;
use crate::storage::empty_contents;
use crate::storage::NanoDb;
use crate::wire::bytes_to_string_lossy;
use crate::wire::denotes;
use crate::wire::utf8_lossy;
use crate::wire::wire_decode;
use crate::wire::WireOp;

verus! {

/// The outcome of executing one command, before rendering.
pub enum CommandResult {
    Data(Vec<u8>),
    Success,
    NotFound,
    Error(String),
}

/// The `DATA: ` line prefix bytes.
pub open spec fn data_prefix() -> Seq<u8> {
    seq![68u8, 65u8, 84u8, 65u8, 58u8, 32u8]
}

/// The `OK` line bytes.
pub open spec fn ok_line() -> Seq<u8> {
    seq![79u8, 75u8, 10u8]
}

/// The `NOT_FOUND` line bytes.
pub open spec fn not_found_line() -> Seq<u8> {
    seq![78u8, 79u8, 84u8, 95u8, 70u8, 79u8, 85u8, 78u8, 68u8, 10u8]
}

/// The `ERROR: ` line prefix bytes.
pub open spec fn error_prefix() -> Seq<u8> {
    seq![69u8, 82u8, 82u8, 79u8, 82u8, 58u8, 32u8]
}

/// The one response line a command outcome renders to: data bytes are shown
/// as lossily decoded text, and every line ends in a newline.
pub open spec fn response_bytes(r: CommandResult) -> Seq<u8> {
    match r {
        CommandResult::Data(d) => data_prefix() + encode_utf8(utf8_lossy(d@)) + seq![10u8],
        CommandResult::Success => ok_line(),
        CommandResult::NotFound => not_found_line(),
        CommandResult::Error(m) => error_prefix() + encode_utf8(m@) + seq![10u8],
    }
}

/// Execute one command against the store: `Get` reads, `Put` overwrites,
/// `Delete` removes, `Flush` empties the whole map, and any other variant is
/// answered with a `command not implemented` error without touching the
/// store.
pub fn execute_operation(db: &mut NanoDb, op: DbOperation) -> (r: CommandResult)
    ensures
        op matches DbOperation::Get { key, .. } ==> final(db)@ == old(db)@ && (old(
            db,
        )@.contains_key(key@) ==> (r matches CommandResult::Data(v) && v@ == old(db)@[key@])) && (
        !old(db)@.contains_key(key@) ==> r is NotFound),
        op matches DbOperation::Put { key, value } ==> final(db)@ == old(db)@.insert(key@, value@)
            && r is Success,
        op matches DbOperation::Delete { key } ==> final(db)@ == old(db)@.remove(key@)
            && r is Success,
        op is Flush ==> final(db)@ == empty_contents() && r is Success,
        !op.is_wired() ==> final(db)@ == old(db)@ && (r matches CommandResult::Error(m) && m@
            == "command not implemented"@),
{
    match op {
        DbOperation::Get { key, .. } => match db.get(key.as_str()) {
            DbResult::Success(data) => CommandResult::Data(data),
            DbResult::NotFound => CommandResult::NotFound,
            DbResult::Error(msg) => CommandResult::Error(msg),
        },
        DbOperation::Put { key, value } => match db.set(key, value) {
            DbResult::Success(_) => CommandResult::Success,
            DbResult::NotFound => CommandResult::NotFound,
            DbResult::Error(msg) => CommandResult::Error(msg),
        },
        DbOperation::Delete { key } => match db.delete(key.as_str()) {
            DbResult::Success(_) => CommandResult::Success,
            DbResult::NotFound => CommandResult::NotFound,
            DbResult::Error(msg) => CommandResult::Error(msg),
        },
        DbOperation::Flush => match db.clear() {
            DbResult::Success(_) => CommandResult::Success,
            DbResult::NotFound => CommandResult::NotFound,
            DbResult::Error(msg) => CommandResult::Error(msg),
        },
        DbOperation::Exists { .. }
        | DbOperation::Keys
        | DbOperation::KeysCursor { .. }
        | DbOperation::KeysPrefix { .. }
        | DbOperation::Values
        | DbOperation::ValuesPrefix { .. }
        | DbOperation::GetPrefix { .. }
        | DbOperation::DeletePrefix { .. }
        | DbOperation::Size
        | DbOperation::CompareAndSwap { .. } => CommandResult::Error(
            "command not implemented".to_owned(),
        ),
    }
}

/// Render one command outcome as its newline-terminated ASCII response line.
pub fn render_response(r: &CommandResult) -> (out: Vec<u8>)
    ensures
        out@ == response_bytes(*r),
{
    let mut out: Vec<u8> = Vec::new();
    match r {
        CommandResult::Data(d) => {
            out.push(68);
            out.push(65);
            out.push(84);
            out.push(65);
            out.push(58);
            out.push(32);
            let text = bytes_to_string_lossy(d.as_slice());
            let mut tb = text.as_str().as_bytes_vec();
            out.append(&mut tb);
            out.push(10);
            proof {
                assert(out@ =~= response_bytes(*r));
            }
        },
        CommandResult::Success => {
            out.push(79);
            out.push(75);
            out.push(10);
            proof {
                assert(out@ =~= response_bytes(*r));
            }
        },
        CommandResult::NotFound => {
            out.push(78);
            out.push(79);
            out.push(84);
            out.push(95);
            out.push(70);
            out.push(79);
            out.push(85);
            out.push(78);
            out.push(68);
            out.push(10);
            proof {
                assert(out@ =~= response_bytes(*r));
            }
        },
        CommandResult::Error(m) => {
            out.push(69);
            out.push(82);
            out.push(82);
            out.push(79);
            out.push(82);
            out.push(58);
            out.push(32);
            let mut mb = m.as_str().as_bytes_vec();
            out.append(&mut mb);
            out.push(10);
            proof {
                assert(out@ =~= response_bytes(*r));
            }
        },
    }
    out
}

/// How one decoded wire command changes the store.
pub open spec fn apply_wire_op(m: Map<Seq<char>, Seq<u8>>, w: WireOp) -> Map<Seq<char>, Seq<u8>> {
    match w {
        WireOp::Get { .. } => m,
        WireOp::Put { key, value } => m.insert(key, value),
        WireOp::Delete { key } => m.remove(key),
        WireOp::Flush => empty_contents(),
    }
}

/// How a sequence of decoded wire commands changes the store, first to last.
pub open spec fn apply_wire_ops(m: Map<Seq<char>, Seq<u8>>, ws: Seq<WireOp>) -> Map<
    Seq<char>,
    Seq<u8>,
>
    decreases ws.len(),
{
    if ws.len() == 0 {
        m
    } else {
        apply_wire_ops(apply_wire_op(m, ws[0]), ws.skip(1))
    }
}

/// The response line one decoded wire command earns against the given store.
pub open spec fn wire_response(m: Map<Seq<char>, Seq<u8>>, w: WireOp) -> Seq<u8> {
    match w {
        WireOp::Get { key } => if m.contains_key(key) {
            data_prefix() + encode_utf8(utf8_lossy(m[key])) + seq![10u8]
        } else {
            not_found_line()
        },
        _ => ok_line(),
    }
}

/// The concatenated response lines of a command sequence, each rendered
/// against the store as the commands before it left it.
pub open spec fn wire_responses(m: Map<Seq<char>, Seq<u8>>, ws: Seq<WireOp>) -> Seq<u8>
    decreases ws.len(),
{
    if ws.len() == 0 {
        Seq::<u8>::empty()
    } else {
        wire_response(m, ws[0]) + wire_responses(apply_wire_op(m, ws[0]), ws.skip(1))
    }
}

/// One read chunk, processed as the connection handler does: feed the
/// decoder, execute each completed command against the store in decode
/// order, and emit one response line per command, concatenated in that same
/// order.
pub fn process_chunk(parser: &mut ProtocolParser, db: &mut NanoDb, bytes: &[u8]) -> (out: Vec<u8>)
    requires
        old(parser).wf(),
    ensures
        final(parser).wf(),
        ({
            let d = wire_decode(old(parser).pending() + bytes@);
            &&& final(parser).pending() == d.1
            &&& final(db)@ == apply_wire_ops(old(db)@, d.0)
            &&& out@ == wire_responses(old(db)@, d.0)
        }),
{
    let ghost d = wire_decode(old(parser).pending() + bytes@);
    let mut cmds = parser.feed_bytes(bytes);
    let ghost orig = cmds@;
    let ghost j: int = 0;
    let mut out: Vec<u8> = Vec::new();
    proof {
        assert(cmds@ =~= orig.skip(0));
        assert(d.0.skip(0) =~= d.0);
        assert(out@ + wire_responses(db@, d.0) =~= wire_responses(db@, d.0));
    }
    while cmds.len() > 0
        invariant
            0 <= orig.len() - cmds@.len() <= orig.len(),
            orig.len() == d.0.len(),
            cmds@ == orig.skip(orig.len() - cmds@.len()),
            forall|i: int| 0 <= i < d.0.len() ==> denotes(#[trigger] orig[i], d.0[i]),
            apply_wire_ops(old(db)@, d.0) == apply_wire_ops(
                db@,
                d.0.skip(orig.len() - cmds@.len()),
            ),
            wire_responses(old(db)@, d.0) == out@ + wire_responses(
                db@,
                d.0.skip(orig.len() - cmds@.len()),
            ),
        decreases cmds@.len(),
    {
        let ghost k = orig.len() - cmds@.len();
        let ghost pre = db@;
        let op = cmds.remove(0);
        proof {
            assert(op == orig[k]);
            assert(cmds@ =~= orig.skip(k + 1));
            assert(d.0.skip(k)[0] == d.0[k]);
            assert(d.0.skip(k).skip(1) =~= d.0.skip(k + 1));
            assert(denotes(op, d.0[k]));
        }
        let reply = execute_operation(db, op);
        let mut line = render_response(&reply);
        proof {
            assert(db@ == apply_wire_op(pre, d.0[k]));
            assert(line@ == wire_response(pre, d.0[k]));
        }
        out.append(&mut line);
    }
    proof {
        assert(d.0.skip(orig.len() - cmds@.len()) =~= Seq::<WireOp>::empty());
        assert(out@ + Seq::<u8>::empty() =~= out@);
    }
    out
}

} // verus!

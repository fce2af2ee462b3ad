//! The HTTP facade core: the store operations as the JSON/base64 facade
//! consumes them. Values travel base64-encoded; a body that does not decode
//! is rejected with a message rather than stored.
//!
//! Request routing, JSON and status codes live outside the library; these
//! functions take and return plain values.

use vstd::prelude::*;
use base64::Engine;
use crate::operations::DbResult;
use crate::storage::empty_contents;
use crate::storage::key_list_matches;
use crate::storage::NanoDb;

verus! {

/// What the standard base64 engine decodes the given text to, or nothing
/// when the text is not valid base64; a function of the text alone.
pub uninterp spec fn b64_decode(s: Seq<char>) -> Option<Seq<u8>>;

/// What the standard base64 engine encodes the given bytes to; a function of
/// the bytes alone.
pub uninterp spec fn b64_encode(bytes: Seq<u8>) -> Seq<char>;

/// Relies on base64's standard engine `decode`: the result is a function of
/// the input text alone, and invalid input yields a decode error.
#[verifier::external_body]
fn base64_decode(s: &str) -> (r: Option<Vec<u8>>)
    ensures
        r is Some <==> b64_decode(s@) is Some,
        r matches Some(v) ==> (b64_decode(s@) matches Some(w) && v@ == w),
{
    match base64::engine::general_purpose::STANDARD.decode(s) {
        Ok(v) => Some(v),
        Err(_) => None,
    }
}

/// Relies on base64's standard engine `encode`: the result is a function of
/// the input bytes alone.
#[verifier::external_body]
fn base64_encode(v: &[u8]) -> (r: String)
    ensures
        r@ == b64_encode(v@),
{
    base64::engine::general_purpose::STANDARD.encode(v)
}

/// The outcome the facade reports for a write: success, or a message saying
/// why not.
pub struct StatusOutcome {
    pub success: bool,
    pub message: Option<String>,
}

/// Store a base64-encoded value under a key: decode it and store the bytes,
/// or reject undecodable text without touching the store.
pub fn http_set(db: &mut NanoDb, key: String, value_b64: &str) -> (r: StatusOutcome)
    ensures
        b64_decode(value_b64@) matches Some(bytes) ==> final(db)@ == old(db)@.insert(key@, bytes)
            && r.success && r.message is None,
        b64_decode(value_b64@) is None ==> final(db)@ == old(db)@ && !r.success && (
        r.message matches Some(m) && m@ == "Invalid Base64"@),
{
    match base64_decode(value_b64) {
        Some(bytes) => {
            db.set(key, bytes);
            StatusOutcome { success: true, message: None }
        },
        None => StatusOutcome { success: false, message: Some("Invalid Base64".to_owned()) },
    }
}

/// Look a key up and hand its value back base64-encoded, or `NotFound`.
pub fn http_get(db: &NanoDb, key: &str) -> (r: DbResult<String>)
    ensures
        db@.contains_key(key@) ==> (r matches DbResult::Success(s) && s@ == b64_encode(
            db@[key@],
        )),
        !db@.contains_key(key@) ==> r is NotFound,
{
    match db.get(key) {
        DbResult::Success(bytes) => DbResult::Success(base64_encode(bytes.as_slice())),
        DbResult::NotFound => DbResult::NotFound,
        DbResult::Error(m) => DbResult::Error(m),
    }
}

/// Remove a key; succeeds whether or not it existed.
pub fn http_delete(db: &mut NanoDb, key: &str) -> (r: StatusOutcome)
    ensures
        final(db)@ == old(db)@.remove(key@),
        r.success,
        r.message is None,
{
    db.delete(key);
    StatusOutcome { success: true, message: None }
}

/// Empty the whole store.
pub fn http_flush(db: &mut NanoDb) -> (r: StatusOutcome)
    ensures
        final(db)@ == empty_contents(),
        r.success,
        r.message is None,
{
    db.clear();
    StatusOutcome { success: true, message: None }
}

/// A snapshot of the key set.
pub fn http_keys(db: &NanoDb) -> (r: Vec<String>)
    ensures
        key_list_matches(db@, r@),
{
    match db.keys() {
        DbResult::Success(ks) => ks,
        DbResult::Error(_) => Vec::new(),
        DbResult::NotFound => Vec::new(),
    }
}

} // verus!

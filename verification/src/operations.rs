//! The operation model: a closed set of command variants and the tri-state
//! result type every store operation returns.

use vstd::prelude::*;

verus! {

/// A database command. Only `Get`, `Put`, `Delete` and `Flush` are wired
/// through the binary protocol and the executor; the remaining variants are
/// declared extension points for non-wire callers.
#[derive(Debug, Clone, PartialEq)]
pub enum DbOperation {
    Get { key: String, default: Option<Vec<u8>> },
    Put { key: String, value: Vec<u8> },
    Delete { key: String },
    Exists { key: String },
    Flush,
    Keys,
    KeysCursor { prefix: Option<String>, cursor: Option<String>, limit: usize },
    KeysPrefix { prefix: String },
    Values,
    ValuesPrefix { prefix: String },
    GetPrefix { prefix: String },
    DeletePrefix { prefix: String },
    Size,
    CompareAndSwap { key: String, old_value: Option<Vec<u8>>, new_value: Option<Vec<u8>> },
}

impl DbOperation {
    /// The four variants that the wire protocol can carry.
    pub open spec fn is_wired(&self) -> bool {
        ||| self is Get
        ||| self is Put
        ||| self is Delete
        ||| self is Flush
    }
}

/// The tri-state outcome of a store operation. `NotFound` is a first-class
/// outcome, distinct from `Err`, used whenever a lookup or deletion targets
/// an absent key.
#[derive(Debug, Clone)]
pub enum DbResult<T> {
    Success(T),
    Error(String),
    NotFound,
}

} // verus!

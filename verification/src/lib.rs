//! A minimal in-memory key-value store with a binary TCP wire protocol.
//!
//! The crate is organised leaf-first: the operation model, the wire model,
//! the incremental protocol decoder, the command encoder, the concurrent
//! store, the per-connection command execution path, and the HTTP facade
//! core.

pub mod operations;
pub mod wire;
pub mod protocol;
pub mod serializer;
pub mod storage;
pub mod handler;
pub mod http;
pub mod metrics;

pub use operations::DbOperation;
pub use operations::DbResult;
pub use storage::NanoDb;
pub use metrics::Metrics;
pub use metrics::MetricsSnapshot;

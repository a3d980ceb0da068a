//! A native storage contract: a selector dispatcher over a 32-byte-word
//! call-data codec, reading and writing typed values (a scalar word, a string,
//! an indexed array, a keyed map) through a storage capability.

pub mod codec;
pub mod contract;
pub mod laws;
pub mod slots;
pub mod storage;
pub mod text;

pub use contract::{
    fetch, perform, reply_bytes, reply_empty, reply_word, respond, Access, CallParams, ExecOutput,
    Fetched, NativeError, Operation, SimpleStorage,
};
pub use storage::{MemoryStore, StorageAccess, StorageError};

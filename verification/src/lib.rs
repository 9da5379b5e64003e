//! An append-only, tamper-evident chain of blocks linked by SHA-256
//! hashes, each admitted after a proof-of-work search.
//!
//! `block` holds the single block and its mining; `blockchain` the ordered
//! sequence with its linkage and validity rules; `hashing` the canonical
//! serialization and digest pipeline; `record` the stored-record form used
//! by the persistence boundary.

pub mod block;
pub mod blockchain;
pub mod hashing;
pub mod record;

pub use block::Block;
pub use blockchain::Blockchain;
pub use record::Model;

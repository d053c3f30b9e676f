//! An embedded, single-process key-value store.
//!
//! Values live in memory as encoded text, in two mappings: scalar entries
//! (key to one encoded value) and list entries (key to an ordered sequence of
//! encoded items), with key uniqueness enforced across both. The whole
//! dataset can be persisted to a single backing file under a configurable
//! dump policy; persistence is crash-safe through a write-to-temporary-file
//! and atomic-rename protocol. The file I/O itself is left to the caller:
//! mutating operations hand back a [`PendingDump`] describing exactly what to
//! write where, and the caller reports back success or failure.

pub use crate::extenders::PickleListExtender;
pub use crate::rustypickle::{DumpPolicy, PendingDump, Pickle};
pub use crate::serialization::SerializationMethod;

pub mod assoc;
pub mod error;
pub mod extenders;
pub mod rustypickle;
pub mod serialization;

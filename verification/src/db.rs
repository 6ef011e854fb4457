//! The index database's records, the decoding of its rows and the encoding
//! of its parameters, its schema, and the decisions of the indexer, the
//! folder watcher and the write-back worker.

pub mod indexer;
pub mod rows;
pub mod schema;
pub mod watcher;
pub mod write_worker;

pub use rows::{ColumnRow, FileRow, IndexedFile, MetadataRow, ViewRow};

//! Versioned table metadata for analytic tables kept on an object store:
//! namespaces and identifiers, the commit protocol of a table transaction,
//! and the staleness bookkeeping of a materialized view's storage table.
//!
//! Everything that waits on a catalog or an object store is written as a
//! step function: the caller performs the action a step hands out and feeds
//! the answer back in.
pub mod error;
pub mod file_format;
pub mod get_namespace_response;
pub mod identifier;
pub mod location;
pub mod metadata;
pub mod namespace;
pub mod operation;
pub mod partition;
pub mod refresh;
pub mod sort;
pub mod storage_table;
pub mod summary;
pub mod table;
pub mod text;
pub mod transaction;
pub mod urlencoded;

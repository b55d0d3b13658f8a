//! The error type shared by every fallible operation of the crate.
use vstd::prelude::*;

verus! {

#[verifier::external_type_specification]
#[verifier::external_body]
pub struct ExJsonError(serde_json::Error);

/// What can go wrong while working with tables.
#[derive(Debug)]
pub enum IcebergError {
    /// A value does not have the shape it must have; the text names the value.
    InvalidFormat(String),
    /// The catalog refused to move a table pointer because it had already
    /// moved away from the location the commit started from.
    Conflict(String),
    /// The catalog or the object store failed; the text is theirs.
    External(String),
    /// A bookkeeping entry of a snapshot summary is not the JSON it should be.
    JSONSerde(serde_json::Error),
}

} // verus!

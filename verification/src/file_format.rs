//! What is known of a data file when it is registered with a table.
use vstd::prelude::*;

verus! {

/// The footer of a Parquet file, as far as registering the file needs it.
#[derive(Clone, Copy, Debug, PartialEq, Eq, Structural)]
pub struct ParquetMetadata {
    /// Version of the file format.
    pub version: i32,
    /// Number of rows in the file.
    pub num_rows: i64,
    /// Size of all row groups together, uncompressed, in bytes.
    pub total_byte_size: i64,
}

/// Metadata for a datafile
#[derive(Clone, Copy, Debug, PartialEq, Eq, Structural)]
pub enum DatafileMetadata {
    /// Metadata for a parquet datafile
    Parquet(ParquetMetadata),
}

impl DeepView for DatafileMetadata {
    type V = DatafileMetadata;

    open spec fn deep_view(&self) -> DatafileMetadata {
        *self
    }
}

} // verus!

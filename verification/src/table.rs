//! Tables as a catalog hands them out.
use crate::identifier::{Identifier, IdentifierModel};
use crate::metadata::{MetadataModel, TableMetadata};
use vstd::prelude::*;
use vstd::string::*;

verus! {

/// A table: its identifier, the version of its metadata that was loaded, and
/// where that version is stored.
#[derive(Debug, PartialEq, Eq)]
pub struct Table {
    /// The identifier of the table in its catalog
    pub identifier: Identifier,
    /// The loaded version of the metadata
    pub metadata: TableMetadata,
    /// The location of the file that holds the loaded version
    pub metadata_location: String,
}

/// The plain value of a table.
pub struct TableModel {
    pub identifier: IdentifierModel,
    pub metadata: MetadataModel,
    pub metadata_location: Seq<char>,
}

impl DeepView for Table {
    type V = TableModel;

    open spec fn deep_view(&self) -> TableModel {
        TableModel {
            identifier: self.identifier@,
            metadata: self.metadata@,
            metadata_location: self.metadata_location@,
        }
    }
}

impl View for Table {
    type V = TableModel;

    open spec fn view(&self) -> TableModel {
        self.deep_view()
    }
}

impl Clone for Table {
    fn clone(&self) -> (copy: Self)
        ensures
            copy@ == self@,
    {
        Table {
            identifier: self.identifier.clone(),
            metadata: self.metadata.clone(),
            metadata_location: self.metadata_location.clone(),
        }
    }
}

/// What a catalog can hold under an identifier.
#[derive(Debug, PartialEq, Eq)]
pub enum Tabular {
    /// A table
    Table(Table),
    /// A view, known by its identifier
    View(Identifier),
    /// A materialized view, known by its identifier
    MaterializedView(Identifier),
}

} // verus!

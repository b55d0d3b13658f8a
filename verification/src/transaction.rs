//! Transactions: a queue of operations on one table, and the protocol that
//! publishes them all or none.
//!
//! A commit makes the next version of the metadata, has it written to a new
//! location, and then has the catalog move the table's pointer from the
//! location it started from to the new one. The catalog refuses the move if
//! the pointer is no longer where the commit started: of two commits that
//! start from the same version, one wins.
use crate::error::IcebergError;
use crate::file_format::DatafileMetadata;
use crate::identifier::Identifier;
use crate::location::{is_metadata_location, new_metadata_location};
use crate::metadata::{MetadataModel, SchemaV2, TableMetadata};
use crate::operation::{stage, staged, Operation};
use crate::table::{Table, TableModel, Tabular};
use vstd::prelude::*;
use vstd::string::*;

verus! {

/// What the caller of a commit has to do next.
#[derive(Debug, PartialEq, Eq)]
pub enum CommitAction {
    /// Write the metadata to the location, which must not exist yet.
    Store { location: String, metadata: TableMetadata },
    /// Have the catalog move the pointer of the table from the previous
    /// location to the new one, if it still is at the previous one.
    UpdateTable {
        identifier: Identifier,
        metadata_location: String,
        previous_metadata_location: String,
    },
}

/// What came of the action that a commit asked for.
#[derive(Debug)]
pub enum CommitEvent {
    /// The metadata has been written.
    Stored,
    /// The catalog has moved the pointer; this is what it now holds.
    Updated(Tabular),
    /// The object store or the catalog failed, or the catalog refused.
    Failed(IcebergError),
}

/// A commit whose metadata has been made, between two actions.
#[derive(Debug, PartialEq, Eq)]
pub enum StagedCommit {
    /// The metadata is being written.
    Storing {
        identifier: Identifier,
        metadata_location: String,
        previous_metadata_location: String,
    },
    /// The catalog is moving the pointer.
    Swapping,
}

/// What an event makes of a staged commit.
#[derive(Debug)]
pub enum CommitStep {
    /// The commit goes on with the given action.
    Continue(StagedCommit, CommitAction),
    /// The commit is published; this is the table as the catalog holds it.
    Committed(Table),
    /// The commit is given up.
    Failed(IcebergError),
}

/// The ways in which an event can bear on a staged commit.
pub enum StepKind {
    /// The metadata is written: the pointer is to be moved.
    Written,
    /// The pointer is moved and the catalog holds a table.
    Published,
    /// The pointer is moved but the catalog holds something else.
    NotATable,
    /// The action failed.
    Failed,
    /// The event does not answer the action that was asked for.
    Unexpected,
}

/// How `event` bears on `state`.
pub open spec fn step_kind(state: StagedCommit, event: CommitEvent) -> StepKind {
    match (state, event) {
        (_, CommitEvent::Failed(_)) => StepKind::Failed,
        (StagedCommit::Storing { .. }, CommitEvent::Stored) => StepKind::Written,
        (StagedCommit::Swapping, CommitEvent::Updated(Tabular::Table(_))) => StepKind::Published,
        (StagedCommit::Swapping, CommitEvent::Updated(_)) => StepKind::NotATable,
        _ => StepKind::Unexpected,
    }
}

/// The text of the error for a catalog that answers with something that is
/// not a table.
pub open spec fn not_a_table_text() -> Seq<char> {
    "Updating the table for the transaction didn't return a table."@
}

/// Whether `step` is what `event` makes of `state`.
pub open spec fn is_step(state: StagedCommit, event: CommitEvent, step: CommitStep) -> bool {
    match step_kind(state, event) {
        StepKind::Written => step matches CommitStep::Continue(next, action) && next
            is Swapping && (state matches StagedCommit::Storing {
            identifier,
            metadata_location,
            previous_metadata_location,
        } && action == (CommitAction::UpdateTable {
            identifier,
            metadata_location,
            previous_metadata_location,
        })),
        StepKind::Published => step matches CommitStep::Committed(table) && event
            == CommitEvent::Updated(Tabular::Table(table)),
        StepKind::NotATable => step matches CommitStep::Failed(IcebergError::InvalidFormat(what))
            && what@ == not_a_table_text(),
        StepKind::Failed => step matches CommitStep::Failed(error) && event == CommitEvent::Failed(
            error,
        ),
        StepKind::Unexpected => step matches CommitStep::Failed(IcebergError::InvalidFormat(what))
            && what@ == "unexpected event"@,
    }
}

/// Whether `state` and `action` have the metadata `next` written for the
/// table `table`, to a location of its own that is named after `version`,
/// with the pointer later to be moved there from where the table was loaded.
pub open spec fn is_storing(
    state: StagedCommit,
    action: CommitAction,
    table: TableModel,
    next: MetadataModel,
    version: int,
) -> bool {
    &&& state matches StagedCommit::Storing {
        identifier,
        metadata_location,
        previous_metadata_location,
    } && identifier@ == table.identifier && previous_metadata_location@
        == table.metadata_location && (action matches CommitAction::Store { location, metadata }
        && metadata@ == next && location@ == metadata_location@ && is_metadata_location(
        location@,
        next.location,
        version,
    ))
}

/// Whether `state` and `action` start the commit that publishes `next` for
/// the table `table`: the metadata is to be written to a location named
/// after its sequence number.
pub open spec fn is_staging(
    state: StagedCommit,
    action: CommitAction,
    table: TableModel,
    next: MetadataModel,
) -> bool {
    is_storing(state, action, table, next, next.last_sequence_number as int)
}

/// Makes the next version of the table's metadata and starts its commit.
/// Nothing is written and the table is not touched: where an operation
/// cannot be applied, the commit ends here.
pub fn stage_commit(table: &Table, operations: Vec<Operation>, branch: &Option<String>) -> (made:
    Result<(StagedCommit, CommitAction), IcebergError>)
    ensures
        made is Ok <==> staged(table.metadata@, operations.deep_view(), branch.deep_view()) is Ok,
        made is Ok ==> is_staging(
            made->Ok_0.0,
            made->Ok_0.1,
            table@,
            staged(table.metadata@, operations.deep_view(), branch.deep_view())->Ok_0,
        ),
        made is Err ==> (made->Err_0 matches IcebergError::InvalidFormat(what) && what@ == staged(
            table.metadata@,
            operations.deep_view(),
            branch.deep_view(),
        )->Err_0),
{
    match stage(&table.metadata, operations, branch) {
        Err(error) => Err(error),
        Ok(metadata) => {
            let location = new_metadata_location(&metadata);
            let state = StagedCommit::Storing {
                identifier: table.identifier.clone(),
                metadata_location: location.clone(),
                previous_metadata_location: table.metadata_location.clone(),
            };
            Ok((state, CommitAction::Store { location, metadata }))
        },
    }
}

impl StagedCommit {
    /// Takes the commit one step further.
    pub fn advance(self, event: CommitEvent) -> (step: CommitStep)
        ensures
            is_step(self, event, step),
    {
        match event {
            CommitEvent::Failed(error) => CommitStep::Failed(error),
            CommitEvent::Stored => match self {
                StagedCommit::Storing {
                    identifier,
                    metadata_location,
                    previous_metadata_location,
                } => CommitStep::Continue(
                    StagedCommit::Swapping,
                    CommitAction::UpdateTable {
                        identifier,
                        metadata_location,
                        previous_metadata_location,
                    },
                ),
                StagedCommit::Swapping => CommitStep::Failed(
                    IcebergError::InvalidFormat(String::from_str("unexpected event")),
                ),
            },
            CommitEvent::Updated(tabular) => match self {
                StagedCommit::Storing { .. } => CommitStep::Failed(
                    IcebergError::InvalidFormat(String::from_str("unexpected event")),
                ),
                StagedCommit::Swapping => match tabular {
                    Tabular::Table(table) => CommitStep::Committed(table),
                    _ => CommitStep::Failed(
                        IcebergError::InvalidFormat(
                            String::from_str(
                                "Updating the table for the transaction didn't return a table.",
                            ),
                        ),
                    ),
                },
            },
        }
    }
}

/// Transactions let you perform a sequence of [Operation]s that can be
/// committed to be performed with ACID guarantees.
pub struct TableTransaction<'table> {
    /// The table that the transaction is about
    pub table: &'table mut Table,
    /// The queued operations, in the order in which they are applied
    pub operations: Vec<Operation>,
    /// The branch that the transaction changes, or none for the table's own
    /// line of snapshots
    pub branch: Option<String>,
}

/// A commit under way on a table, between two actions.
pub struct PendingCommit<'table> {
    /// The table that is being committed to; it is as it was loaded until
    /// the commit is published
    pub table: &'table mut Table,
    /// How far the commit has come
    pub staged: StagedCommit,
}

/// What an event makes of a commit under way.
pub enum CommitProgress<'table> {
    /// The commit goes on with the given action.
    Continue(PendingCommit<'table>, CommitAction),
    /// The commit is published, and the table is the one the catalog holds.
    Committed,
    /// The commit is given up, and the table is as it was loaded.
    Failed(IcebergError),
}

impl<'table> TableTransaction<'table> {
    /// Create a transaction for the given table.
    pub fn new(table: &'table mut Table) -> (transaction: Self)
        ensures
            transaction.operations@.len() == 0,
            transaction.branch is None,
            *transaction.table == *old(table),
            *final(transaction.table) == *final(table),
    {
        TableTransaction { table, operations: Vec::new(), branch: None }
    }

    /// Update the schema of the table
    pub fn update_schema(self, schema: SchemaV2) -> (transaction: Self)
        ensures
            transaction.operations@ == self.operations@.push(Operation::UpdateSchema(schema)),
            transaction.branch == self.branch,
            *transaction.table == *old(self.table),
            *final(transaction.table) == *final(self.table),
    {
        let mut transaction = self;
        transaction.operations.push(Operation::UpdateSchema(schema));
        transaction
    }

    /// Update the spec of the table
    pub fn update_spec(self, spec_id: i32) -> (transaction: Self)
        ensures
            transaction.operations@ == self.operations@.push(Operation::UpdateSpec(spec_id)),
            transaction.branch == self.branch,
            *transaction.table == *old(self.table),
            *final(transaction.table) == *final(self.table),
    {
        let mut transaction = self;
        transaction.operations.push(Operation::UpdateSpec(spec_id));
        transaction
    }

    /// Quickly append files to the table
    pub fn append(self, files: Vec<(String, DatafileMetadata)>) -> (transaction: Self)
        ensures
            transaction.operations@ == self.operations@.push(
                Operation::NewAppend { paths: files },
            ),
            transaction.branch == self.branch,
            *transaction.table == *old(self.table),
            *final(transaction.table) == *final(self.table),
    {
        let mut transaction = self;
        transaction.operations.push(Operation::NewAppend { paths: files });
        transaction
    }

    /// Update the properties of the table
    pub fn update_properties(self, entries: Vec<(String, String)>) -> (transaction: Self)
        ensures
            transaction.operations@ == self.operations@.push(Operation::UpdateProperties(entries)),
            transaction.branch == self.branch,
            *transaction.table == *old(self.table),
            *final(transaction.table) == *final(self.table),
    {
        let mut transaction = self;
        transaction.operations.push(Operation::UpdateProperties(entries));
        transaction
    }

    /// Starts the commit of the queued operations. The next version of the
    /// metadata is made from the table's own, which stays as it is; the
    /// first action is to write that version. Where an operation cannot be
    /// applied the commit ends here, with nothing written and the table as
    /// it was.
    pub fn commit(self) -> (begun: Result<(PendingCommit<'table>, CommitAction), IcebergError>)
        ensures
            begun is Ok <==> staged(
                old(self.table).metadata@,
                self.operations.deep_view(),
                self.branch.deep_view(),
            ) is Ok,
            begun is Ok ==> is_staging(
                begun->Ok_0.0.staged,
                begun->Ok_0.1,
                old(self.table)@,
                staged(
                    old(self.table).metadata@,
                    self.operations.deep_view(),
                    self.branch.deep_view(),
                )->Ok_0,
            ),
            begun is Ok ==> *begun->Ok_0.0.table == *old(self.table) && *final(begun->Ok_0.0.table)
                == *final(self.table),
            begun is Err ==> *final(self.table) == *old(self.table),
            begun is Err ==> (begun->Err_0 matches IcebergError::InvalidFormat(what) && what@
                == staged(
                old(self.table).metadata@,
                self.operations.deep_view(),
                self.branch.deep_view(),
            )->Err_0),
    {
        let TableTransaction { table, operations, branch } = self;
        match stage_commit(&*table, operations, &branch) {
            Err(error) => Err(error),
            Ok((staged, action)) => Ok((PendingCommit { table, staged }, action)),
        }
    }
}

impl<'table> PendingCommit<'table> {
    /// Takes the commit one step further. The table changes only when the
    /// commit is published: it then becomes the table that the catalog
    /// holds. Whenever the commit is given up, the table is as it was.
    pub fn advance(self, event: CommitEvent) -> (progress: CommitProgress<'table>)
        ensures
            step_kind(self.staged, event) is Written ==> (progress matches CommitProgress::Continue(
                pending,
                action,
            ) && is_step(self.staged, event, CommitStep::Continue(pending.staged, action))
                && *pending.table == *old(self.table)
                && *final(pending.table) == *final(self.table)),
            step_kind(self.staged, event) is Published ==> progress is Committed && event
                == CommitEvent::Updated(Tabular::Table(*final(self.table))),
            !(step_kind(self.staged, event) is Written) && !(step_kind(self.staged, event)
                is Published) ==> (progress matches CommitProgress::Failed(error) && is_step(
                self.staged,
                event,
                CommitStep::Failed(error),
            ) && *final(self.table) == *old(self.table)),
    {
        let PendingCommit { table, staged } = self;
        match staged.advance(event) {
            CommitStep::Continue(staged, action) => CommitProgress::Continue(
                PendingCommit { table, staged },
                action,
            ),
            CommitStep::Committed(published) => {
                *table = published;
                CommitProgress::Committed
            },
            CommitStep::Failed(error) => CommitProgress::Failed(error),
        }
    }
}

} // verus!

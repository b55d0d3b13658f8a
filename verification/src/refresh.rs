//! The full refresh of a storage table: the table is replaced by one
//! without history, the new result is committed to it, and the bookkeeping
//! of the refresh is written with it.
//!
//! A full refresh is two commits in a row. The first publishes metadata
//! that starts over; the second registers the data files and stamps the
//! snapshot it makes. The storage table changes when the second is
//! published, and not before.
//!
//! Each of the two commits is all or nothing, the refresh as a whole is
//! not: between them the catalog points at metadata without snapshots, and
//! it stays there if the second commit is given up. The storage table in
//! memory is then still the one from before the refresh, so the next commit
//! on it is refused by the catalog until the table is loaded again; a view
//! found without a snapshot is invalid towards all its base tables and
//! asks for another full refresh.
use crate::error::IcebergError;
use crate::file_format::DatafileMetadata;
use crate::location::new_metadata_location;
use crate::metadata::{
    lemma_with_current_replaced_current, lemma_with_new_snapshot_current, MetadataModel,
    SnapshotModel,
};
use crate::operation::{applied, applied_all, staged, Operation, OperationModel};
use crate::storage_table::{
    base_tables_key, i64_to_json, recorded, recorded_version, version_key, BaseTable,
    StorageTable,
};
use crate::summary::{lemma_with_entries_one, with_entries, with_entry};
use crate::table::{Table, Tabular};
use crate::text::decimal;
use crate::transaction::{
    is_staging, is_step, is_storing, stage_commit, step_kind, CommitAction, CommitEvent,
    CommitStep, StagedCommit, StepKind,
};
use vstd::prelude::*;
use vstd::string::*;

verus! {

/// What the caller of a full refresh has to do next.
#[derive(Debug, PartialEq, Eq)]
pub enum RefreshAction {
    /// Do what the commit under way asks for.
    Commit(CommitAction),
    /// Encode the list of base tables.
    EncodeBaseTables { base_tables: Vec<BaseTable> },
    /// Release what the replaced table held.
    DropTable { table: Table },
}

/// What came of the action that a full refresh asked for.
#[derive(Debug)]
pub enum RefreshEvent {
    /// What came of the action of the commit under way.
    Commit(CommitEvent),
    /// The encoded list of base tables.
    Encoded(String),
    /// The replaced table is released.
    Dropped,
    /// The action failed.
    Failed(IcebergError),
}

/// A full refresh, between two actions.
#[derive(Debug, PartialEq, Eq)]
pub enum RefreshState {
    /// The metadata that starts over is being published.
    Replacing {
        staged: StagedCommit,
        files: Vec<(String, DatafileMetadata)>,
        version_id: i64,
        base_tables: Vec<BaseTable>,
        branch: Option<String>,
    },
    /// The list of base tables is being encoded.
    Encoding {
        table: Table,
        files: Vec<(String, DatafileMetadata)>,
        version_id: i64,
        branch: Option<String>,
    },
    /// The data files and the bookkeeping are being committed.
    Committing { staged: StagedCommit },
    /// The replaced table is being released.
    Dropping,
}

/// What an event makes of a full refresh.
#[derive(Debug)]
pub enum RefreshStep {
    /// The refresh goes on with the given action.
    Continue(RefreshState, RefreshAction),
    /// The refreshed table is published and takes the place of the old one.
    Publish(Table),
    /// The refresh is complete.
    Finished,
    /// The refresh is given up.
    Failed(IcebergError),
}

/// The operations of the second commit of a full refresh: the data files are
/// registered, and the snapshot is stamped with the version of the view and
/// with the encoded list of base tables.
pub open spec fn refresh_operations(
    files: Seq<(Seq<char>, DatafileMetadata)>,
    version: Seq<char>,
    base_tables: Seq<char>,
) -> Seq<OperationModel> {
    seq![
        OperationModel::NewAppend { paths: files },
        OperationModel::UpdateProperties(
            seq![(version_key(), version), (base_tables_key(), base_tables)],
        ),
    ]
}

/// The operations of the second commit of a full refresh.
pub fn stamp(files: Vec<(String, DatafileMetadata)>, version: String, base_tables: String) -> (made:
    Vec<Operation>)
    ensures
        made.deep_view() == refresh_operations(files.deep_view(), version@, base_tables@),
{
    let mut entries: Vec<(String, String)> = Vec::new();
    entries.push((String::from_str("version-id"), version));
    entries.push((String::from_str("base-tables"), base_tables));
    assert(entries.deep_view() =~= seq![
        (version_key(), version@),
        (base_tables_key(), base_tables@),
    ]);
    let mut made: Vec<Operation> = Vec::new();
    made.push(Operation::NewAppend { paths: files });
    made.push(Operation::UpdateProperties(entries));
    assert(made.deep_view() =~= refresh_operations(files.deep_view(), version@, base_tables@));
    made
}

/// The version that the second commit of a full refresh publishes holds a
/// new current snapshot with the data files it was given and nothing else,
/// and that snapshot records the version and the base tables.
pub proof fn lemma_refresh_records(
    metadata: MetadataModel,
    files: Seq<(Seq<char>, DatafileMetadata)>,
    version: Seq<char>,
    base_tables: Seq<char>,
    branch: Option<Seq<char>>,
)
    requires
        staged(metadata, refresh_operations(files, version, base_tables), branch) is Ok,
    ensures
        staged(
            metadata,
            refresh_operations(files, version, base_tables),
            branch,
        )->Ok_0.current_snapshot(branch) == Some(
            SnapshotModel {
                snapshot_id: metadata.next_snapshot_id() as i64,
                sequence_number: (metadata.last_sequence_number + 1) as i64,
                summary: seq![(version_key(), version), (base_tables_key(), base_tables)],
                files,
            },
        ),
        recorded(
            staged(metadata, refresh_operations(files, version, base_tables), branch)->Ok_0,
            branch,
            version_key(),
        ) == Some(version),
        recorded(
            staged(metadata, refresh_operations(files, version, base_tables), branch)->Ok_0,
            branch,
            base_tables_key(),
        ) == Some(base_tables),
{
    let operations = refresh_operations(files, version, base_tables);
    let append = OperationModel::NewAppend { paths: files };
    let entries = seq![(version_key(), version), (base_tables_key(), base_tables)];
    let stamp = OperationModel::UpdateProperties(entries);
    assert(operations[0] == append && operations[1] == stamp);
    assert(operations[0] is NewAppend);
    let counted = metadata.with_next_sequence_number();
    let begun = counted.with_new_snapshot(branch);
    lemma_with_new_snapshot_current(counted, branch);
    let empty = begun.current_snapshot(branch)->Some_0;
    let filled = SnapshotModel { files: empty.files + files, ..empty };
    assert(empty.files + files =~= files);
    let appended = begun.with_current_replaced(branch, filled);
    lemma_with_current_replaced_current(begun, branch, filled);
    assert(applied(begun, append, branch) == Ok::<MetadataModel, Seq<char>>(appended));
    let summary = with_entries(filled.summary, entries);
    assert(summary =~= entries) by {
        let none = Seq::<(Seq<char>, Seq<char>)>::empty();
        lemma_keys_differ();
        crate::summary::lemma_key_index(none, version_key());
        assert(with_entry(none, version_key(), version) =~= seq![(version_key(), version)]);
        let one = seq![(version_key(), version)];
        assert(entries.drop_first() =~= seq![(base_tables_key(), base_tables)]);
        lemma_with_entries_one(one, base_tables_key(), base_tables);
        crate::summary::lemma_key_index(one, base_tables_key());
        assert(with_entry(one, base_tables_key(), base_tables) =~= entries);
    }
    let stamped = SnapshotModel { summary, ..filled };
    let done = appended.with_current_replaced(branch, stamped);
    lemma_with_current_replaced_current(appended, branch, stamped);
    assert(applied(appended, stamp, branch) == Ok::<MetadataModel, Seq<char>>(done));
    assert(operations.drop_first() =~= seq![stamp]);
    assert(seq![stamp].drop_first().len() == 0);
    assert(applied_all(done, seq![stamp].drop_first(), branch) == Ok::<
        MetadataModel,
        Seq<char>,
    >(done));
    assert(applied_all(appended, seq![stamp], branch) == Ok::<MetadataModel, Seq<char>>(done));
    assert(applied_all(begun, operations, branch) == Ok::<MetadataModel, Seq<char>>(done));
    lemma_keys_differ();
    crate::summary::lemma_key_index(entries, version_key());
    crate::summary::lemma_key_index(entries, base_tables_key());
    assert(entries[0].0 == version_key());
    assert(entries[1].0 == base_tables_key());
}

/// The two bookkeeping keys are different keys.
pub proof fn lemma_keys_differ()
    ensures
        version_key() != base_tables_key(),
{
    reveal_strlit("version-id");
    reveal_strlit("base-tables");
    assert(version_key().len() == 10);
    assert(base_tables_key().len() == 11);
}

/// The text of the error for a catalog that answers the first commit with
/// something that is not a table.
pub open spec fn not_an_entity_text() -> Seq<char> {
    "Entity returnedfrom catalog"@
}

/// The ways in which an event can bear on a full refresh.
pub enum RefreshKind {
    /// The commit under way takes a step of the given kind.
    Commit(StepKind),
    /// The encoded list of base tables has come.
    Encoded,
    /// The replaced table is released.
    Dropped,
    /// The action failed.
    Failed,
    /// The event does not answer the action that was asked for.
    Unexpected,
}

/// How `event` bears on `state`.
pub open spec fn refresh_kind(state: RefreshState, event: RefreshEvent) -> RefreshKind {
    match (state, event) {
        (_, RefreshEvent::Failed(_)) => RefreshKind::Failed,
        (RefreshState::Replacing { staged, .. }, RefreshEvent::Commit(event)) => RefreshKind::Commit(
            step_kind(staged, event),
        ),
        (RefreshState::Committing { staged }, RefreshEvent::Commit(event)) => RefreshKind::Commit(
            step_kind(staged, event),
        ),
        (RefreshState::Encoding { .. }, RefreshEvent::Encoded(_)) => RefreshKind::Encoded,
        (RefreshState::Dropping, RefreshEvent::Dropped) => RefreshKind::Dropped,
        _ => RefreshKind::Unexpected,
    }
}

/// Whether `step` is what `event` makes of a refresh that is publishing the
/// metadata that starts over. Once the catalog holds the new table, the
/// list of base tables is to be encoded.
pub open spec fn is_replacing_step(state: RefreshState, event: CommitEvent, step: RefreshStep)
    -> bool {
    state matches RefreshState::Replacing { staged, files, version_id, base_tables, branch } && (
    match step_kind(staged, event) {
        StepKind::Written => step matches RefreshStep::Continue(
            RefreshState::Replacing {
                staged: next,
                files: next_files,
                version_id: next_version,
                base_tables: next_tables,
                branch: next_branch,
            },
            RefreshAction::Commit(action),
        ) && is_step(staged, event, CommitStep::Continue(next, action)) && next_files == files
            && next_version == version_id && next_tables == base_tables && next_branch == branch,
        StepKind::Published => step matches RefreshStep::Continue(
            RefreshState::Encoding {
                table,
                files: next_files,
                version_id: next_version,
                branch: next_branch,
            },
            RefreshAction::EncodeBaseTables { base_tables: wanted },
        ) && event == CommitEvent::Updated(Tabular::Table(table)) && next_files == files
            && next_version == version_id && wanted == base_tables && next_branch == branch,
        StepKind::NotATable => step matches RefreshStep::Failed(IcebergError::InvalidFormat(what))
            && what@ == not_an_entity_text(),
        _ => step matches RefreshStep::Failed(error) && is_step(
            staged,
            event,
            CommitStep::Failed(error),
        ),
    })
}

/// Whether `step` is what `event` makes of a refresh that is committing the
/// data files. Once that commit is published, the refreshed table is.
pub open spec fn is_committing_step(state: RefreshState, event: CommitEvent, step: RefreshStep)
    -> bool {
    state matches RefreshState::Committing { staged } && (match step_kind(staged, event) {
        StepKind::Written => step matches RefreshStep::Continue(
            RefreshState::Committing { staged: next },
            RefreshAction::Commit(action),
        ) && is_step(staged, event, CommitStep::Continue(next, action)),
        StepKind::Published => step matches RefreshStep::Publish(table) && event
            == CommitEvent::Updated(Tabular::Table(table)),
        _ => step matches RefreshStep::Failed(error) && is_step(
            staged,
            event,
            CommitStep::Failed(error),
        ),
    })
}

/// Whether `step` is what the encoded list of base tables makes of a
/// refresh: the second commit is staged on the table that the first one
/// published, and the version that its metadata records is the version of
/// the refresh. The step fails only where an operation cannot be applied.
pub open spec fn is_encoded_step(state: RefreshState, json: Seq<char>, step: RefreshStep) -> bool {
    state matches RefreshState::Encoding { table, files, version_id, branch } && ({
        let next = staged(
            table.metadata@,
            refresh_operations(files.deep_view(), decimal(version_id as int), json),
            branch.deep_view(),
        );
        if next is Ok {
            step matches RefreshStep::Continue(
                RefreshState::Committing { staged },
                RefreshAction::Commit(action),
            ) && is_staging(staged, action, table@, next->Ok_0) && recorded_version(
                next->Ok_0,
                branch.deep_view(),
            ) == Some(version_id)
        } else {
            step matches RefreshStep::Failed(IcebergError::InvalidFormat(what)) && what@
                == next->Err_0
        }
    })
}

/// Whether `step` is what `event` makes of `state`.
pub open spec fn is_refresh_step(state: RefreshState, event: RefreshEvent, step: RefreshStep)
    -> bool {
    match refresh_kind(state, event) {
        RefreshKind::Commit(_) => if state is Replacing {
            is_replacing_step(state, event->Commit_0, step)
        } else {
            is_committing_step(state, event->Commit_0, step)
        },
        RefreshKind::Encoded => is_encoded_step(state, event->Encoded_0@, step),
        RefreshKind::Dropped => step is Finished,
        RefreshKind::Failed => step matches RefreshStep::Failed(error) && event
            == RefreshEvent::Failed(error),
        RefreshKind::Unexpected => step matches RefreshStep::Failed(
            IcebergError::InvalidFormat(what),
        ) && what@ == "unexpected event"@,
    }
}

fn unexpected() -> (step: RefreshStep)
    ensures
        step matches RefreshStep::Failed(IcebergError::InvalidFormat(what)) && what@
            == "unexpected event"@,
{
    RefreshStep::Failed(IcebergError::InvalidFormat(String::from_str("unexpected event")))
}

impl RefreshState {
    /// Takes the refresh one step further.
    pub fn advance(self, event: RefreshEvent) -> (step: RefreshStep)
        ensures
            is_refresh_step(self, event, step),
    {
        match event {
            RefreshEvent::Failed(error) => RefreshStep::Failed(error),
            RefreshEvent::Commit(event) => match self {
                RefreshState::Replacing { staged, files, version_id, base_tables, branch } => {
                    let not_a_table = match (&staged, &event) {
                        (StagedCommit::Swapping, CommitEvent::Updated(Tabular::Table(_))) => false,
                        (StagedCommit::Swapping, CommitEvent::Updated(_)) => true,
                        _ => false,
                    };
                    if not_a_table {
                        return RefreshStep::Failed(
                            IcebergError::InvalidFormat(
                                String::from_str("Entity returnedfrom catalog"),
                            ),
                        );
                    }
                    match staged.advance(event) {
                        CommitStep::Continue(staged, action) => RefreshStep::Continue(
                            RefreshState::Replacing {
                                staged,
                                files,
                                version_id,
                                base_tables,
                                branch,
                            },
                            RefreshAction::Commit(action),
                        ),
                        CommitStep::Committed(table) => RefreshStep::Continue(
                            RefreshState::Encoding { table, files, version_id, branch },
                            RefreshAction::EncodeBaseTables { base_tables },
                        ),
                        CommitStep::Failed(error) => RefreshStep::Failed(error),
                    }
                },
                RefreshState::Committing { staged } => match staged.advance(event) {
                    CommitStep::Continue(staged, action) => RefreshStep::Continue(
                        RefreshState::Committing { staged },
                        RefreshAction::Commit(action),
                    ),
                    CommitStep::Committed(table) => RefreshStep::Publish(table),
                    CommitStep::Failed(error) => RefreshStep::Failed(error),
                },
                _ => unexpected(),
            },
            RefreshEvent::Encoded(json) => match self {
                RefreshState::Encoding { table, files, version_id, branch } => {
                    match i64_to_json(version_id) {
                        Err(error) => RefreshStep::Failed(IcebergError::JSONSerde(error)),
                        Ok(version) => {
                            proof {
                                if staged(
                                    table.metadata@,
                                    refresh_operations(files.deep_view(), version@, json@),
                                    branch.deep_view(),
                                ) is Ok {
                                    lemma_refresh_records(
                                        table.metadata@,
                                        files.deep_view(),
                                        version@,
                                        json@,
                                        branch.deep_view(),
                                    );
                                }
                            }
                            match stage_commit(&table, stamp(files, version, json), &branch) {
                                Err(error) => RefreshStep::Failed(error),
                                Ok((staged, action)) => RefreshStep::Continue(
                                    RefreshState::Committing { staged },
                                    RefreshAction::Commit(action),
                                ),
                            }
                        },
                    }
                },
                _ => unexpected(),
            },
            RefreshEvent::Dropped => match self {
                RefreshState::Dropping => RefreshStep::Finished,
                _ => unexpected(),
            },
        }
    }
}

/// A full refresh under way on a storage table, between two actions.
pub struct PendingRefresh<'table> {
    /// The storage table that is being refreshed; it is as it was until the
    /// refreshed table is published
    pub storage_table: &'table mut StorageTable,
    /// How far the refresh has come
    pub state: RefreshState,
}

/// What an event makes of a full refresh under way.
pub enum RefreshProgress<'table> {
    /// The refresh goes on with the given action.
    Continue(PendingRefresh<'table>, RefreshAction),
    /// The refresh is complete.
    Finished,
    /// The refresh is given up.
    Failed(IcebergError),
}

/// Whether `state` and `action` start a full refresh of `table`: metadata
/// that starts over is to be written to a location of its own, named after
/// the sequence number that the table has reached.
pub open spec fn is_refresh_start(
    state: RefreshState,
    action: RefreshAction,
    table: Table,
    files: Vec<(String, DatafileMetadata)>,
    version_id: i64,
    base_tables: Vec<BaseTable>,
    branch: Option<String>,
) -> bool {
    state matches RefreshState::Replacing {
        staged,
        files: kept_files,
        version_id: kept_version,
        base_tables: kept_tables,
        branch: kept_branch,
    } && kept_files == files && kept_version == version_id && kept_tables == base_tables
        && kept_branch == branch && (action matches RefreshAction::Commit(first) && is_storing(
        staged,
        first,
        table@,
        table.metadata@.started_over(),
        table.metadata.last_sequence_number as int,
    ))
}

impl StorageTable {
    /// Replace the entire storage table with new datafiles. The first
    /// action is to write metadata that starts over; the storage table
    /// itself stays as it is until the refreshed table is published.
    pub fn full_refresh<'table>(
        &'table mut self,
        files: Vec<(String, DatafileMetadata)>,
        version_id: i64,
        base_tables: Vec<BaseTable>,
        branch: Option<String>,
    ) -> (begun: (PendingRefresh<'table>, RefreshAction))
        ensures
            is_refresh_start(
                begun.0.state,
                begun.1,
                old(self).table,
                files,
                version_id,
                base_tables,
                branch,
            ),
            *begun.0.storage_table == *old(self),
            *final(begun.0.storage_table) == *final(self),
    {
        let metadata = self.table.metadata.start_over();
        let location = new_metadata_location(&self.table.metadata);
        let staged = StagedCommit::Storing {
            identifier: self.table.identifier.clone(),
            metadata_location: location.clone(),
            previous_metadata_location: self.table.metadata_location.clone(),
        };
        let state = RefreshState::Replacing { staged, files, version_id, base_tables, branch };
        (
            PendingRefresh { storage_table: self, state },
            RefreshAction::Commit(CommitAction::Store { location, metadata }),
        )
    }
}

/// Whether a refresh under way has gone on rightly: either the step asks
/// for a further action and the storage table `now` is the one from
/// `before`, or the refreshed table is published, `now` holds it with the
/// query from before, and the table from before is to be released.
pub open spec fn is_continued(
    before: StorageTable,
    state: RefreshState,
    event: RefreshEvent,
    now: StorageTable,
    next: RefreshState,
    action: RefreshAction,
) -> bool {
    ||| is_refresh_step(state, event, RefreshStep::Continue(next, action)) && now == before
    ||| is_refresh_step(state, event, RefreshStep::Publish(now.table)) && next is Dropping
        && now.sql@ == before.sql@ && action == (RefreshAction::DropTable { table: before.table })
}

impl<'table> PendingRefresh<'table> {
    /// Takes the refresh one step further. The storage table changes only
    /// when the refreshed table is published: the table then takes the
    /// place of the old one, which is handed out to be released. Whenever
    /// the refresh is given up before that, the storage table is as it was.
    pub fn advance(self, event: RefreshEvent) -> (progress: RefreshProgress<'table>)
        ensures
            progress matches RefreshProgress::Failed(error) ==> is_refresh_step(
                self.state,
                event,
                RefreshStep::Failed(error),
            ) && *final(self.storage_table) == *old(self.storage_table),
            progress is Finished ==> is_refresh_step(self.state, event, RefreshStep::Finished)
                && *final(self.storage_table) == *old(self.storage_table),
            progress matches RefreshProgress::Continue(pending, action) ==> *final(
                pending.storage_table
            ) == *final(self.storage_table) && is_continued(
                *old(self.storage_table),
                self.state,
                event,
                *pending.storage_table,
                pending.state,
                action,
            ),
    {
        let PendingRefresh { storage_table, state } = self;
        match state.advance(event) {
            RefreshStep::Continue(state, action) => RefreshProgress::Continue(
                PendingRefresh { storage_table, state },
                action,
            ),
            RefreshStep::Publish(table) => {
                let mut replaced = StorageTable { table, sql: storage_table.sql.clone() };
                std::mem::swap(storage_table, &mut replaced);
                RefreshProgress::Continue(
                    PendingRefresh { storage_table, state: RefreshState::Dropping },
                    RefreshAction::DropTable { table: replaced.table },
                )
            },
            RefreshStep::Finished => RefreshProgress::Finished,
            RefreshStep::Failed(error) => RefreshProgress::Failed(error),
        }
    }
}

} // verus!

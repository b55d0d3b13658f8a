//! The operations that a transaction can queue, and what they make of a
//! version of table metadata.
use crate::error::IcebergError;
use crate::file_format::DatafileMetadata;
use crate::metadata::{
    lemma_with_current_replaced_current, lemma_with_current_replaced_wf,
    lemma_with_current_schema_wf, lemma_with_new_snapshot_wf,
    snapshot_ids, MetadataModel, SchemaModel, SchemaV2, SnapshotModel, TableMetadata,
};
use crate::text::lemma_first_index_bounds;
use crate::summary::{
    distinct_keys, key_count, lemma_with_entries_one, lemma_with_entry_overwrites, with_entries,
    with_entry,
};
use vstd::prelude::*;
use vstd::string::*;

verus! {

/// One change to a table.
#[derive(Debug, PartialEq, Eq)]
pub enum Operation {
    /// Take a new schema into use
    UpdateSchema(SchemaV2),
    /// Make the partition spec of the given id the default
    UpdateSpec(i32),
    /// Register data files with the snapshot of the commit
    NewAppend { paths: Vec<(String, DatafileMetadata)> },
    /// Put entries into the summary of the current snapshot
    UpdateProperties(Vec<(String, String)>),
}

/// The plain value of an operation.
pub enum OperationModel {
    UpdateSchema(SchemaModel),
    UpdateSpec(i32),
    NewAppend { paths: Seq<(Seq<char>, DatafileMetadata)> },
    UpdateProperties(Seq<(Seq<char>, Seq<char>)>),
}

impl DeepView for Operation {
    type V = OperationModel;

    open spec fn deep_view(&self) -> OperationModel {
        match self {
            Operation::UpdateSchema(schema) => OperationModel::UpdateSchema(schema.deep_view()),
            Operation::UpdateSpec(spec_id) => OperationModel::UpdateSpec(*spec_id),
            Operation::NewAppend { paths } => OperationModel::NewAppend {
                paths: paths.deep_view(),
            },
            Operation::UpdateProperties(entries) => OperationModel::UpdateProperties(
                entries.deep_view(),
            ),
        }
    }
}

/// What one operation makes of the metadata, or why it cannot be applied.
/// An unknown partition spec id is refused; so is a change to the current
/// snapshot where there is none.
pub open spec fn applied(
    metadata: MetadataModel,
    operation: OperationModel,
    branch: Option<Seq<char>>,
) -> Result<MetadataModel, Seq<char>> {
    match operation {
        OperationModel::UpdateSchema(schema) => Ok(metadata.with_current_schema(schema)),
        OperationModel::UpdateSpec(spec_id) => if metadata.has_spec(spec_id) {
            Ok(MetadataModel { default_spec_id: spec_id, ..metadata })
        } else {
            Err("partition spec id"@)
        },
        OperationModel::NewAppend { paths } => match metadata.current_snapshot(branch) {
            Some(snapshot) => Ok(
                metadata.with_current_replaced(
                    branch,
                    SnapshotModel { files: snapshot.files + paths, ..snapshot },
                ),
            ),
            None => Err("snapshot"@),
        },
        OperationModel::UpdateProperties(entries) => match metadata.current_snapshot(branch) {
            Some(snapshot) => Ok(
                metadata.with_current_replaced(
                    branch,
                    SnapshotModel { summary: with_entries(snapshot.summary, entries), ..snapshot },
                ),
            ),
            None => Err("snapshot"@),
        },
    }
}

/// What the operations make of the metadata when they are applied in order.
/// The first that cannot be applied ends it: none after it is looked at.
pub open spec fn applied_all(
    metadata: MetadataModel,
    operations: Seq<OperationModel>,
    branch: Option<Seq<char>>,
) -> Result<MetadataModel, Seq<char>>
    decreases operations.len(),
{
    if operations.len() == 0 {
        Ok(metadata)
    } else {
        match applied(metadata, operations[0], branch) {
            Ok(next) => applied_all(next, operations.drop_first(), branch),
            Err(what) => Err(what),
        }
    }
}

/// Whether one of the operations registers data files.
pub open spec fn has_append(operations: Seq<OperationModel>) -> bool {
    exists|i: int| 0 <= i < operations.len() && (#[trigger] operations[i]) is NewAppend
}

/// The version of the metadata that a commit of the operations publishes:
/// one more commit is counted, a new snapshot is made current if data files
/// are registered, and then the operations are applied in order.
pub open spec fn staged(
    metadata: MetadataModel,
    operations: Seq<OperationModel>,
    branch: Option<Seq<char>>,
) -> Result<MetadataModel, Seq<char>> {
    if metadata.last_sequence_number >= i64::MAX {
        Err("sequence number"@)
    } else if !has_append(operations) {
        applied_all(metadata.with_next_sequence_number(), operations, branch)
    } else if metadata.next_snapshot_id() > i64::MAX {
        Err("snapshot id"@)
    } else {
        applied_all(
            metadata.with_next_sequence_number().with_new_snapshot(branch),
            operations,
            branch,
        )
    }
}

impl Operation {
    /// Applies the operation to the metadata. Where it cannot be applied the
    /// metadata stays as it was.
    pub fn execute(self, metadata: &mut TableMetadata, branch: &Option<String>) -> (done: Result<
        (),
        IcebergError,
    >)
        ensures
            done is Ok <==> applied(old(metadata)@, self.deep_view(), branch.deep_view()) is Ok,
            done is Ok ==> final(metadata)@ == applied(
                old(metadata)@,
                self.deep_view(),
                branch.deep_view(),
            )->Ok_0,
            done is Err ==> final(metadata)@ == old(metadata)@ && (done->Err_0
                matches IcebergError::InvalidFormat(what) && what@ == applied(
                old(metadata)@,
                self.deep_view(),
                branch.deep_view(),
            )->Err_0),
    {
        match self {
            Operation::UpdateSchema(schema) => {
                metadata.set_current_schema(schema);
                Ok(())
            },
            Operation::UpdateSpec(spec_id) => metadata.set_default_spec(spec_id),
            Operation::NewAppend { paths } => metadata.append_files(branch, paths),
            Operation::UpdateProperties(entries) => metadata.update_summary(branch, &entries),
        }
    }
}

/// Whether one of the operations registers data files.
pub fn any_append(operations: &Vec<Operation>) -> (found: bool)
    ensures
        found == has_append(operations.deep_view()),
{
    let mut i: usize = 0;
    while i < operations.len()
        invariant
            i <= operations.len(),
            forall|j: int| 0 <= j < i ==> !(#[trigger] operations.deep_view()[j] is NewAppend),
        decreases operations.len() - i,
    {
        match &operations[i] {
            Operation::NewAppend { paths } => {
                assert(operations.deep_view()[i as int] is NewAppend);
                return true;
            },
            _ => {},
        }
        i = i + 1;
    }
    false
}

/// Makes the version of the metadata that a commit of the operations
/// publishes. The version given stays as it is.
pub fn stage(metadata: &TableMetadata, operations: Vec<Operation>, branch: &Option<String>) -> (made:
    Result<TableMetadata, IcebergError>)
    ensures
        made is Ok <==> staged(metadata@, operations.deep_view(), branch.deep_view()) is Ok,
        made is Ok ==> made->Ok_0@ == staged(
            metadata@,
            operations.deep_view(),
            branch.deep_view(),
        )->Ok_0,
        made is Err ==> (made->Err_0 matches IcebergError::InvalidFormat(what) && what@ == staged(
            metadata@,
            operations.deep_view(),
            branch.deep_view(),
        )->Err_0),
{
    let ghost all = operations.deep_view();
    let mut next = metadata.clone();
    match next.increment_sequence_number() {
        Err(error) => {
            return Err(error);
        },
        Ok(()) => {},
    }
    if any_append(&operations) {
        match next.new_snapshot(branch) {
            Err(error) => {
                return Err(error);
            },
            Ok(()) => {},
        }
    }
    let ghost start = next@;
    assert(all.skip(0) =~= all);
    for operation in it: operations.into_iter()
        invariant
            all == operations.deep_view(),
            it.seq().len() == all.len(),
            forall|j: int| 0 <= j < all.len() ==> (#[trigger] it.seq()[j]).deep_view() == all[j],
            applied_all(next@, all.skip(it.index() as int), branch.deep_view()) == applied_all(
                start,
                all,
                branch.deep_view(),
            ),
            applied_all(start, all, branch.deep_view()) == staged(
                metadata@,
                all,
                branch.deep_view(),
            ),
    {
        let ghost rest = all.skip(it.index() as int);
        assert(rest[0] == operation.deep_view());
        assert(rest.drop_first() =~= all.skip(it.index() + 1));
        match operation.execute(&mut next, branch) {
            Err(error) => {
                return Err(error);
            },
            Ok(()) => {},
        }
    }
    Ok(next)
}

/// Operations that can all be applied leave the sequence number alone.
pub proof fn lemma_applied_all_sequence_number(
    metadata: MetadataModel,
    operations: Seq<OperationModel>,
    branch: Option<Seq<char>>,
)
    requires
        applied_all(metadata, operations, branch) is Ok,
    ensures
        applied_all(metadata, operations, branch)->Ok_0.last_sequence_number
            == metadata.last_sequence_number,
    decreases operations.len(),
{
    if operations.len() > 0 {
        lemma_applied_all_sequence_number(
            applied(metadata, operations[0], branch)->Ok_0,
            operations.drop_first(),
            branch,
        );
    }
}

/// The version that a commit publishes has a sequence number one above the
/// version it started from, whatever was queued.
pub proof fn lemma_staged_sequence_number(
    metadata: MetadataModel,
    operations: Seq<OperationModel>,
    branch: Option<Seq<char>>,
)
    requires
        staged(metadata, operations, branch) is Ok,
    ensures
        staged(metadata, operations, branch)->Ok_0.last_sequence_number
            == metadata.last_sequence_number + 1,
{
    let counted = metadata.with_next_sequence_number();
    if has_append(operations) {
        lemma_applied_all_sequence_number(counted.with_new_snapshot(branch), operations, branch);
    } else {
        lemma_applied_all_sequence_number(counted, operations, branch);
    }
}

/// An operation that can be applied keeps metadata well formed.
pub proof fn lemma_applied_wf(
    metadata: MetadataModel,
    operation: OperationModel,
    branch: Option<Seq<char>>,
)
    requires
        metadata.wf(),
        applied(metadata, operation, branch) is Ok,
    ensures
        applied(metadata, operation, branch)->Ok_0.wf(),
{
    match operation {
        OperationModel::UpdateSchema(schema) => {
            lemma_with_current_schema_wf(metadata, schema);
        },
        OperationModel::UpdateSpec(spec_id) => {},
        OperationModel::NewAppend { paths } => {
            let snapshot = metadata.current_snapshot(branch)->Some_0;
            lemma_with_current_replaced_wf(
                metadata,
                branch,
                SnapshotModel { files: snapshot.files + paths, ..snapshot },
            );
        },
        OperationModel::UpdateProperties(entries) => {
            let snapshot = metadata.current_snapshot(branch)->Some_0;
            lemma_with_current_replaced_wf(
                metadata,
                branch,
                SnapshotModel { summary: with_entries(snapshot.summary, entries), ..snapshot },
            );
        },
    }
}

/// Operations that can all be applied keep metadata well formed.
pub proof fn lemma_applied_all_wf(
    metadata: MetadataModel,
    operations: Seq<OperationModel>,
    branch: Option<Seq<char>>,
)
    requires
        metadata.wf(),
        applied_all(metadata, operations, branch) is Ok,
    ensures
        applied_all(metadata, operations, branch)->Ok_0.wf(),
    decreases operations.len(),
{
    if operations.len() > 0 {
        lemma_applied_wf(metadata, operations[0], branch);
        lemma_applied_all_wf(
            applied(metadata, operations[0], branch)->Ok_0,
            operations.drop_first(),
            branch,
        );
    }
}

/// The version that a commit publishes is well formed if the version it
/// started from is: the schema in use and the default partition spec are
/// among those the table has, whatever is recorded as current is a snapshot
/// of the table, and no two snapshots share an id.
pub proof fn lemma_staged_wf(
    metadata: MetadataModel,
    operations: Seq<OperationModel>,
    branch: Option<Seq<char>>,
)
    requires
        metadata.wf(),
        staged(metadata, operations, branch) is Ok,
    ensures
        staged(metadata, operations, branch)->Ok_0.wf(),
{
    let counted = metadata.with_next_sequence_number();
    assert(counted.wf());
    if has_append(operations) {
        lemma_with_new_snapshot_wf(counted, branch);
        lemma_applied_all_wf(counted.with_new_snapshot(branch), operations, branch);
    } else {
        lemma_applied_all_wf(counted, operations, branch);
    }
}

/// Putting a value under a key and then another under the same key leaves
/// the summary of the current snapshot as if only the second had been put:
/// the key stands in it once, with the second value.
pub proof fn lemma_update_properties_overwrites(
    metadata: MetadataModel,
    branch: Option<Seq<char>>,
    key: Seq<char>,
    first: Seq<char>,
    second: Seq<char>,
)
    requires
        metadata.current_snapshot(branch) is Some,
        distinct_keys(metadata.current_snapshot(branch)->Some_0.summary),
    ensures
        applied_all(
            metadata,
            seq![
                OperationModel::UpdateProperties(seq![(key, first)]),
                OperationModel::UpdateProperties(seq![(key, second)]),
            ],
            branch,
        ) == applied(metadata, OperationModel::UpdateProperties(seq![(key, second)]), branch),
        applied(metadata, OperationModel::UpdateProperties(seq![(key, second)]), branch) is Ok,
        applied(
            metadata,
            OperationModel::UpdateProperties(seq![(key, second)]),
            branch,
        )->Ok_0.current_snapshot(branch)->Some_0.summary == with_entry(
            metadata.current_snapshot(branch)->Some_0.summary,
            key,
            second,
        ),
        key_count(
            with_entry(metadata.current_snapshot(branch)->Some_0.summary, key, second),
            key,
        ) == 1,
{
    let snapshot = metadata.current_snapshot(branch)->Some_0;
    let summary = snapshot.summary;
    let one = OperationModel::UpdateProperties(seq![(key, first)]);
    let two = OperationModel::UpdateProperties(seq![(key, second)]);
    lemma_with_entry_overwrites(summary, key, first, second);
    lemma_with_entries_one(summary, key, first);
    lemma_with_entries_one(summary, key, second);
    let once = SnapshotModel { summary: with_entry(summary, key, first), ..snapshot };
    let twice = SnapshotModel { summary: with_entry(summary, key, second), ..snapshot };
    lemma_with_current_replaced_current(metadata, branch, once);
    lemma_with_current_replaced_current(metadata, branch, twice);
    let middle = metadata.with_current_replaced(branch, once);
    assert(applied(metadata, one, branch) == Ok::<MetadataModel, Seq<char>>(middle));
    lemma_with_entries_one(once.summary, key, second);
    assert(middle.current_id(branch) == metadata.current_id(branch));
    let id = metadata.current_id(branch)->Some_0;
    lemma_first_index_bounds(snapshot_ids(metadata.snapshots), id);
    assert(snapshot_ids(middle.snapshots) =~= snapshot_ids(metadata.snapshots));
    assert(middle.snapshot_index(id) == metadata.snapshot_index(id));
    assert(middle.with_current_replaced(branch, twice).snapshots
        =~= metadata.with_current_replaced(branch, twice).snapshots);
    assert(applied(middle, two, branch) == applied(metadata, two, branch));
    let both = seq![one, two];
    assert(both.drop_first() =~= seq![two]);
    assert(seq![two].drop_first().len() == 0);
    assert(applied_all(applied(middle, two, branch)->Ok_0, seq![two].drop_first(), branch)
        == applied(middle, two, branch));
    assert(applied_all(middle, seq![two], branch) == applied(middle, two, branch));
}

} // verus!

//! Table metadata: one immutable version of what a table is. A commit never
//! changes a version; it writes the next one.
use crate::error::IcebergError;
use crate::file_format::DatafileMetadata;
use crate::partition::{PartitionSpec, PartitionSpecModel};
use crate::summary::{key_index, keys, value_of, with_entries, with_entry, Summary};
use crate::text::{first_index, lemma_first_index_bounds, lemma_first_index_is, same_text};
use vstd::prelude::*;
use vstd::string::*;

verus! {

/// The version of the table format that a table is written in.
#[derive(Clone, Copy, Debug, PartialEq, Eq, Structural)]
pub enum FormatVersion {
    V1,
    V2,
}

/// One column of a schema.
#[derive(Debug, PartialEq, Eq)]
pub struct StructField {
    /// Id unique in table schema
    pub id: i32,
    /// Field name
    pub name: String,
    /// Whether the column must hold a value in every row
    pub required: bool,
    /// The type of the column, by its name
    pub field_type: String,
}

/// The plain value of a column.
pub struct StructFieldModel {
    pub id: i32,
    pub name: Seq<char>,
    pub required: bool,
    pub field_type: Seq<char>,
}

impl DeepView for StructField {
    type V = StructFieldModel;

    open spec fn deep_view(&self) -> StructFieldModel {
        StructFieldModel {
            id: self.id,
            name: self.name@,
            required: self.required,
            field_type: self.field_type@,
        }
    }
}

impl Clone for StructField {
    fn clone(&self) -> (copy: Self)
        ensures
            copy.deep_view() == self.deep_view(),
    {
        StructField {
            id: self.id,
            name: self.name.clone(),
            required: self.required,
            field_type: self.field_type.clone(),
        }
    }
}

/// A schema: an id and the columns of the table, in order.
#[derive(Debug, PartialEq, Eq)]
pub struct SchemaV2 {
    /// Identifier of the schema within its table
    pub schema_id: i32,
    /// The columns
    pub fields: Vec<StructField>,
}

/// The plain value of a schema.
pub struct SchemaModel {
    pub schema_id: i32,
    pub fields: Seq<StructFieldModel>,
}

impl DeepView for SchemaV2 {
    type V = SchemaModel;

    open spec fn deep_view(&self) -> SchemaModel {
        SchemaModel { schema_id: self.schema_id, fields: self.fields.deep_view() }
    }
}

impl Clone for SchemaV2 {
    fn clone(&self) -> (copy: Self)
        ensures
            copy.deep_view() == self.deep_view(),
    {
        let fields = self.fields.clone();
        assert(fields.deep_view() =~= self.fields.deep_view());
        SchemaV2 { schema_id: self.schema_id, fields }
    }
}

/// The contents of a table at one point of its history.
#[derive(Debug, PartialEq, Eq)]
pub struct Snapshot {
    /// Identifier of the snapshot within its table
    pub snapshot_id: i64,
    /// The sequence number of the commit that made the snapshot
    pub sequence_number: i64,
    /// Free-form entries about the snapshot
    pub summary: Summary,
    /// The data files registered with the snapshot, in order
    pub files: Vec<(String, DatafileMetadata)>,
}

/// The plain value of a snapshot.
pub struct SnapshotModel {
    pub snapshot_id: i64,
    pub sequence_number: i64,
    pub summary: Seq<(Seq<char>, Seq<char>)>,
    pub files: Seq<(Seq<char>, DatafileMetadata)>,
}

impl DeepView for Snapshot {
    type V = SnapshotModel;

    open spec fn deep_view(&self) -> SnapshotModel {
        SnapshotModel {
            snapshot_id: self.snapshot_id,
            sequence_number: self.sequence_number,
            summary: self.summary@,
            files: self.files.deep_view(),
        }
    }
}

impl Clone for Snapshot {
    fn clone(&self) -> (copy: Self)
        ensures
            copy.deep_view() == self.deep_view(),
    {
        let mut files: Vec<(String, DatafileMetadata)> = Vec::new();
        let mut i: usize = 0;
        while i < self.files.len()
            invariant
                i <= self.files.len(),
                files.deep_view() == self.files.deep_view().take(i as int),
            decreases self.files.len() - i,
        {
            let ghost before = files.deep_view();
            files.push((self.files[i].0.clone(), self.files[i].1));
            assert(files.deep_view() =~= before.push(self.files.deep_view()[i as int]));
            assert(self.files.deep_view().take(i + 1) =~= before.push(
                self.files.deep_view()[i as int],
            ));
            i = i + 1;
        }
        assert(self.files.deep_view().take(self.files.len() as int) =~= self.files.deep_view());
        Snapshot {
            snapshot_id: self.snapshot_id,
            sequence_number: self.sequence_number,
            summary: self.summary.clone(),
            files,
        }
    }
}

/// One version of the metadata of a table.
#[derive(Debug, PartialEq, Eq)]
pub struct TableMetadata {
    /// The version of the table format
    pub format_version: FormatVersion,
    /// The root under which the table's files are kept
    pub location: String,
    /// The number of commits made to the table
    pub last_sequence_number: i64,
    /// The schemas the table has had, each under its own id
    pub schemas: Vec<SchemaV2>,
    /// The id of the schema in use
    pub current_schema_id: i32,
    /// The partition specs the table has had, each under its own id
    pub partition_specs: Vec<PartitionSpec>,
    /// The id of the partition spec that new files are written with
    pub default_spec_id: i32,
    /// The snapshots of the table, oldest first
    pub snapshots: Vec<Snapshot>,
    /// The id of the snapshot that is the table's contents, if it has any
    pub current_snapshot_id: Option<i64>,
    /// The id of the current snapshot of each named branch
    pub refs: Vec<(String, i64)>,
}

/// The plain value of one version of table metadata.
pub struct MetadataModel {
    pub format_version: FormatVersion,
    pub location: Seq<char>,
    pub last_sequence_number: i64,
    pub schemas: Seq<SchemaModel>,
    pub current_schema_id: i32,
    pub partition_specs: Seq<PartitionSpecModel>,
    pub default_spec_id: i32,
    pub snapshots: Seq<SnapshotModel>,
    pub current_snapshot_id: Option<i64>,
    pub refs: Seq<(Seq<char>, i64)>,
}

impl DeepView for TableMetadata {
    type V = MetadataModel;

    open spec fn deep_view(&self) -> MetadataModel {
        MetadataModel {
            format_version: self.format_version,
            location: self.location@,
            last_sequence_number: self.last_sequence_number,
            schemas: self.schemas.deep_view(),
            current_schema_id: self.current_schema_id,
            partition_specs: self.partition_specs.deep_view(),
            default_spec_id: self.default_spec_id,
            snapshots: self.snapshots.deep_view(),
            current_snapshot_id: self.current_snapshot_id,
            refs: self.refs.deep_view(),
        }
    }
}

impl View for TableMetadata {
    type V = MetadataModel;

    open spec fn view(&self) -> MetadataModel {
        self.deep_view()
    }
}

/// The ids of a list of schemas, in order.
pub open spec fn schema_ids(schemas: Seq<SchemaModel>) -> Seq<i32> {
    Seq::new(schemas.len(), |i: int| schemas[i].schema_id)
}

/// The ids of a list of partition specs, in order.
pub open spec fn spec_ids(specs: Seq<PartitionSpecModel>) -> Seq<i32> {
    Seq::new(specs.len(), |i: int| specs[i].spec_id)
}

/// The ids of a list of snapshots, in order.
pub open spec fn snapshot_ids(snapshots: Seq<SnapshotModel>) -> Seq<i64> {
    Seq::new(snapshots.len(), |i: int| snapshots[i].snapshot_id)
}

/// The greatest id among the snapshots, or zero if none is greater.
pub open spec fn max_snapshot_id(snapshots: Seq<SnapshotModel>) -> int
    decreases snapshots.len(),
{
    if snapshots.len() == 0 {
        0
    } else {
        let rest = max_snapshot_id(snapshots.drop_last());
        if snapshots.last().snapshot_id > rest {
            snapshots.last().snapshot_id as int
        } else {
            rest
        }
    }
}

/// The schemas with `schema` among them: in the place of the first schema of
/// the same id if there is one, else at the end.
pub open spec fn with_schema(schemas: Seq<SchemaModel>, schema: SchemaModel) -> Seq<SchemaModel> {
    let i = first_index(schema_ids(schemas), schema.schema_id);
    if 0 <= i < schemas.len() {
        schemas.update(i, schema)
    } else {
        schemas.push(schema)
    }
}

impl MetadataModel {
    /// The place of the first snapshot with the given id, or the number of
    /// snapshots if there is none.
    pub open spec fn snapshot_index(self, id: i64) -> int {
        first_index(snapshot_ids(self.snapshots), id)
    }

    /// Whether a schema has the given id.
    pub open spec fn has_schema(self, id: i32) -> bool {
        first_index(schema_ids(self.schemas), id) < self.schemas.len()
    }

    /// Whether a partition spec has the given id.
    pub open spec fn has_spec(self, id: i32) -> bool {
        first_index(spec_ids(self.partition_specs), id) < self.partition_specs.len()
    }

    /// Whether a snapshot has the given id.
    pub open spec fn has_snapshot(self, id: i64) -> bool {
        self.snapshot_index(id) < self.snapshots.len()
    }

    /// The id recorded as current: of the table itself, or of a branch.
    pub open spec fn current_id(self, branch: Option<Seq<char>>) -> Option<i64> {
        match branch {
            None => self.current_snapshot_id,
            Some(name) => value_of(self.refs, name),
        }
    }

    /// The current snapshot of the table or of a branch, if an id is
    /// recorded and a snapshot has it.
    pub open spec fn current_snapshot(self, branch: Option<Seq<char>>) -> Option<SnapshotModel> {
        match self.current_id(branch) {
            Some(id) => if self.has_snapshot(id) {
                Some(self.snapshots[self.snapshot_index(id)])
            } else {
                None
            },
            None => None,
        }
    }

    /// Whether an id is recorded as current that no snapshot has.
    pub open spec fn is_dangling(self, branch: Option<Seq<char>>) -> bool {
        self.current_id(branch) is Some && !self.has_snapshot(self.current_id(branch)->Some_0)
    }

    /// The metadata with `id` recorded as current.
    pub open spec fn with_current(self, branch: Option<Seq<char>>, id: i64) -> MetadataModel {
        match branch {
            None => MetadataModel { current_snapshot_id: Some(id), ..self },
            Some(name) => MetadataModel { refs: with_entry(self.refs, name, id), ..self },
        }
    }

    /// The metadata after one more commit has been counted.
    pub open spec fn with_next_sequence_number(self) -> MetadataModel {
        MetadataModel { last_sequence_number: (self.last_sequence_number + 1) as i64, ..self }
    }

    /// The id that the next snapshot gets: one more than the greatest in use.
    pub open spec fn next_snapshot_id(self) -> int {
        max_snapshot_id(self.snapshots) + 1
    }

    /// The metadata with a new, empty snapshot that is current.
    pub open spec fn with_new_snapshot(self, branch: Option<Seq<char>>) -> MetadataModel {
        let id = self.next_snapshot_id() as i64;
        let snapshot = SnapshotModel {
            snapshot_id: id,
            sequence_number: self.last_sequence_number,
            summary: Seq::empty(),
            files: Seq::empty(),
        };
        MetadataModel { snapshots: self.snapshots.push(snapshot), ..self }.with_current(branch, id)
    }

    /// The metadata with `schema` among its schemas and in use.
    pub open spec fn with_current_schema(self, schema: SchemaModel) -> MetadataModel {
        MetadataModel {
            schemas: with_schema(self.schemas, schema),
            current_schema_id: schema.schema_id,
            ..self
        }
    }

    /// The metadata with the current snapshot replaced.
    pub open spec fn with_current_replaced(
        self,
        branch: Option<Seq<char>>,
        snapshot: SnapshotModel,
    ) -> MetadataModel {
        MetadataModel {
            snapshots: self.snapshots.update(
                self.snapshot_index(self.current_id(branch)->Some_0),
                snapshot,
            ),
            ..self
        }
    }

    /// The first version of a table that takes the place of this one: the
    /// same format version, location, schemas and partition specs, and no
    /// history.
    pub open spec fn started_over(self) -> MetadataModel {
        MetadataModel {
            last_sequence_number: 0,
            snapshots: Seq::empty(),
            current_snapshot_id: None,
            refs: Seq::empty(),
            ..self
        }
    }

    /// What holds of every version of a table: the schema in use and the
    /// default partition spec are among those the table has, whatever is
    /// recorded as current is a snapshot of the table, and no two snapshots
    /// share an id.
    pub open spec fn wf(self) -> bool {
        &&& self.has_schema(self.current_schema_id)
        &&& self.has_spec(self.default_spec_id)
        &&& self.current_snapshot_id is Some ==> self.has_snapshot(self.current_snapshot_id->Some_0)
        &&& forall|i: int|
            0 <= i < self.refs.len() ==> self.has_snapshot((#[trigger] self.refs[i]).1)
        &&& snapshot_ids(self.snapshots).no_duplicates()
    }
}

pub proof fn lemma_max_snapshot_id(snapshots: Seq<SnapshotModel>)
    ensures
        0 <= max_snapshot_id(snapshots) <= i64::MAX,
        forall|i: int|
            0 <= i < snapshots.len() ==> (#[trigger] snapshots[i]).snapshot_id <= max_snapshot_id(
                snapshots,
            ),
    decreases snapshots.len(),
{
    if snapshots.len() > 0 {
        let front = snapshots.drop_last();
        lemma_max_snapshot_id(front);
        assert forall|i: int| 0 <= i < snapshots.len() implies (
        #[trigger] snapshots[i]).snapshot_id <= max_snapshot_id(snapshots) by {
            if i < front.len() {
                assert(front[i] == snapshots[i]);
            }
        }
    }
}

impl Clone for TableMetadata {
    fn clone(&self) -> (copy: Self)
        ensures
            copy@ == self@,
    {
        let schemas = self.schemas.clone();
        assert(schemas.deep_view() =~= self.schemas.deep_view());
        let partition_specs = self.partition_specs.clone();
        assert(partition_specs.deep_view() =~= self.partition_specs.deep_view());
        let snapshots = self.snapshots.clone();
        assert(snapshots.deep_view() =~= self.snapshots.deep_view());
        let mut refs: Vec<(String, i64)> = Vec::new();
        let mut i: usize = 0;
        while i < self.refs.len()
            invariant
                i <= self.refs.len(),
                refs.deep_view() == self.refs.deep_view().take(i as int),
            decreases self.refs.len() - i,
        {
            let ghost before = refs.deep_view();
            refs.push((self.refs[i].0.clone(), self.refs[i].1));
            assert(refs.deep_view() =~= before.push(self.refs.deep_view()[i as int]));
            assert(self.refs.deep_view().take(i + 1) =~= before.push(
                self.refs.deep_view()[i as int],
            ));
            i = i + 1;
        }
        assert(self.refs.deep_view().take(self.refs.len() as int) =~= self.refs.deep_view());
        TableMetadata {
            format_version: self.format_version,
            location: self.location.clone(),
            last_sequence_number: self.last_sequence_number,
            schemas,
            current_schema_id: self.current_schema_id,
            partition_specs,
            default_spec_id: self.default_spec_id,
            snapshots,
            current_snapshot_id: self.current_snapshot_id,
            refs,
        }
    }
}

impl TableMetadata {
    /// The id recorded as current: of the table itself, or of a branch.
    pub fn current_snapshot_id_of(&self, branch: &Option<String>) -> (id: Option<i64>)
        ensures
            id == self@.current_id(branch.deep_view()),
    {
        match branch {
            None => self.current_snapshot_id,
            Some(name) => {
                let ghost refs = self.refs.deep_view();
                let mut i: usize = 0;
                while i < self.refs.len()
                    invariant
                        i <= self.refs.len(),
                        refs == self.refs.deep_view(),
                        branch.deep_view() == Some(name@),
                        forall|j: int| 0 <= j < i ==> keys(refs)[j] != name@,
                    decreases self.refs.len() - i,
                {
                    if same_text(self.refs[i].0.as_str(), name.as_str()) {
                        proof {
                            assert(keys(refs)[i as int] == name@);
                            lemma_first_index_is(keys(refs), name@, i as int);
                        }
                        return Some(self.refs[i].1);
                    }
                    i = i + 1;
                }
                proof {
                    lemma_first_index_is(keys(refs), name@, refs.len() as int);
                }
                None
            },
        }
    }

    /// The place of the first snapshot with the given id, or the number of
    /// snapshots if there is none.
    pub fn snapshot_position(&self, id: i64) -> (place: usize)
        ensures
            place == self@.snapshot_index(id),
            place <= self.snapshots.len(),
    {
        let ghost ids = snapshot_ids(self@.snapshots);
        let mut i: usize = 0;
        while i < self.snapshots.len()
            invariant
                i <= self.snapshots.len(),
                ids == snapshot_ids(self@.snapshots),
                forall|j: int| 0 <= j < i ==> ids[j] != id,
            decreases self.snapshots.len() - i,
        {
            if self.snapshots[i].snapshot_id == id {
                proof {
                    assert(ids[i as int] == id);
                    lemma_first_index_is(ids, id, i as int);
                }
                return i;
            }
            i = i + 1;
        }
        proof {
            lemma_first_index_is(ids, id, ids.len() as int);
        }
        i
    }

    /// The current snapshot of the table or of a branch. There is none where
    /// no id is recorded as current. An id that no snapshot has is an error.
    pub fn current_snapshot(&self, branch: &Option<String>) -> (found: Result<
        Option<&Snapshot>,
        IcebergError,
    >)
        ensures
            found is Err <==> self@.is_dangling(branch.deep_view()),
            found is Err ==> (found->Err_0 matches IcebergError::InvalidFormat(what) && what@
                == "snapshot"@),
            found is Ok ==> (found->Ok_0 is Some <==> self@.current_snapshot(
                branch.deep_view(),
            ) is Some),
            found is Ok && found->Ok_0 is Some ==> Some(found->Ok_0->Some_0.deep_view())
                == self@.current_snapshot(branch.deep_view()),
    {
        match self.current_snapshot_id_of(branch) {
            None => Ok(None),
            Some(id) => {
                let place = self.snapshot_position(id);
                if place < self.snapshots.len() {
                    Ok(Some(&self.snapshots[place]))
                } else {
                    Err(IcebergError::InvalidFormat(String::from_str("snapshot")))
                }
            },
        }
    }

    /// Counts one more commit.
    pub fn increment_sequence_number(&mut self) -> (done: Result<(), IcebergError>)
        ensures
            done is Ok <==> old(self).last_sequence_number < i64::MAX,
            done is Ok ==> final(self)@ == old(self)@.with_next_sequence_number(),
            done is Err ==> final(self)@ == old(self)@ && (done->Err_0
                matches IcebergError::InvalidFormat(what) && what@ == "sequence number"@),
    {
        if self.last_sequence_number == i64::MAX {
            return Err(IcebergError::InvalidFormat(String::from_str("sequence number")));
        }
        self.last_sequence_number = self.last_sequence_number + 1;
        Ok(())
    }

    /// The greatest id among the snapshots, or zero if none is greater.
    pub fn greatest_snapshot_id(&self) -> (id: i64)
        ensures
            id == max_snapshot_id(self@.snapshots),
    {
        let ghost all = self@.snapshots;
        let mut id: i64 = 0;
        let mut i: usize = 0;
        while i < self.snapshots.len()
            invariant
                i <= self.snapshots.len(),
                all == self@.snapshots,
                id == max_snapshot_id(all.take(i as int)),
            decreases self.snapshots.len() - i,
        {
            assert(all.take(i + 1).drop_last() =~= all.take(i as int));
            if self.snapshots[i].snapshot_id > id {
                id = self.snapshots[i].snapshot_id;
            }
            i = i + 1;
        }
        assert(all.take(all.len() as int) =~= all);
        id
    }

    /// Records `id` as current.
    pub fn set_current(&mut self, branch: &Option<String>, id: i64)
        ensures
            final(self)@ == old(self)@.with_current(branch.deep_view(), id),
    {
        match branch {
            None => {
                self.current_snapshot_id = Some(id);
            },
            Some(name) => {
                let ghost refs = self.refs.deep_view();
                let mut i: usize = 0;
                while i < self.refs.len()
                    invariant
                        i <= self.refs.len(),
                        *self == *old(self),
                        refs == self.refs.deep_view(),
                        branch.deep_view() == Some(name@),
                        forall|j: int| 0 <= j < i ==> keys(refs)[j] != name@,
                    decreases self.refs.len() - i,
                {
                    if same_text(self.refs[i].0.as_str(), name.as_str()) {
                        proof {
                            assert(keys(refs)[i as int] == name@);
                            lemma_first_index_is(keys(refs), name@, i as int);
                        }
                        self.refs.set(i, (name.clone(), id));
                        assert(self.refs.deep_view() =~= refs.update(i as int, (name@, id)));
                        return ;
                    }
                    i = i + 1;
                }
                proof {
                    lemma_first_index_is(keys(refs), name@, refs.len() as int);
                }
                self.refs.push((name.clone(), id));
                assert(self.refs.deep_view() =~= refs.push((name@, id)));
            },
        }
    }

    /// Adds a new, empty snapshot and makes it current. Its id is one more
    /// than the greatest in use.
    pub fn new_snapshot(&mut self, branch: &Option<String>) -> (done: Result<(), IcebergError>)
        ensures
            done is Ok <==> old(self)@.next_snapshot_id() <= i64::MAX,
            done is Ok ==> final(self)@ == old(self)@.with_new_snapshot(branch.deep_view()),
            done is Err ==> final(self)@ == old(self)@ && (done->Err_0
                matches IcebergError::InvalidFormat(what) && what@ == "snapshot id"@),
    {
        let greatest = self.greatest_snapshot_id();
        if greatest == i64::MAX {
            return Err(IcebergError::InvalidFormat(String::from_str("snapshot id")));
        }
        let ghost before = self@;
        let snapshot = Snapshot {
            snapshot_id: greatest + 1,
            sequence_number: self.last_sequence_number,
            summary: Summary::new(),
            files: Vec::new(),
        };
        assert(snapshot.files.deep_view() =~= Seq::<(Seq<char>, DatafileMetadata)>::empty());
        assert(snapshot.summary@ =~= Seq::<(Seq<char>, Seq<char>)>::empty());
        self.snapshots.push(snapshot);
        assert(self@.snapshots =~= before.snapshots.push(snapshot.deep_view()));
        self.set_current(branch, greatest + 1);
        Ok(())
    }

    /// Puts `schema` among the schemas, in place of the one of the same id
    /// if there is one, and takes it into use.
    pub fn set_current_schema(&mut self, schema: SchemaV2)
        ensures
            final(self)@ == old(self)@.with_current_schema(schema.deep_view()),
    {
        let ghost before = self@;
        let ghost ids = schema_ids(before.schemas);
        let id = schema.schema_id;
        self.current_schema_id = id;
        let mut i: usize = 0;
        while i < self.schemas.len()
            invariant
                i <= self.schemas.len(),
                self@ == (MetadataModel { current_schema_id: id, ..before }),
                before == old(self)@,
                ids == schema_ids(before.schemas),
                id == schema.schema_id,
                forall|j: int| 0 <= j < i ==> ids[j] != id,
            decreases self.schemas.len() - i,
        {
            if self.schemas[i].schema_id == id {
                proof {
                    assert(ids[i as int] == id);
                    lemma_first_index_is(ids, id, i as int);
                }
                self.schemas.set(i, schema);
                assert(self@.schemas =~= before.schemas.update(i as int, schema.deep_view()));
                return ;
            }
            i = i + 1;
        }
        proof {
            lemma_first_index_is(ids, id, ids.len() as int);
        }
        self.schemas.push(schema);
        assert(self@.schemas =~= before.schemas.push(schema.deep_view()));
    }

    /// Makes the partition spec of the given id the default. The table must
    /// have such a spec.
    pub fn set_default_spec(&mut self, spec_id: i32) -> (done: Result<(), IcebergError>)
        ensures
            done is Ok <==> old(self)@.has_spec(spec_id),
            done is Ok ==> final(self)@ == (MetadataModel {
                default_spec_id: spec_id,
                ..old(self)@
            }),
            done is Err ==> final(self)@ == old(self)@ && (done->Err_0
                matches IcebergError::InvalidFormat(what) && what@ == "partition spec id"@),
    {
        let ghost ids = spec_ids(self@.partition_specs);
        let mut i: usize = 0;
        while i < self.partition_specs.len()
            invariant
                i <= self.partition_specs.len(),
                *self == *old(self),
                ids == spec_ids(self@.partition_specs),
                forall|j: int| 0 <= j < i ==> ids[j] != spec_id,
            decreases self.partition_specs.len() - i,
        {
            if self.partition_specs[i].spec_id == spec_id {
                proof {
                    assert(ids[i as int] == spec_id);
                    lemma_first_index_is(ids, spec_id, i as int);
                }
                self.default_spec_id = spec_id;
                return Ok(());
            }
            i = i + 1;
        }
        proof {
            lemma_first_index_is(ids, spec_id, ids.len() as int);
        }
        Err(IcebergError::InvalidFormat(String::from_str("partition spec id")))
    }

    /// Registers data files with the current snapshot, after those it has.
    pub fn append_files(
        &mut self,
        branch: &Option<String>,
        files: Vec<(String, DatafileMetadata)>,
    ) -> (done: Result<(), IcebergError>)
        ensures
            done is Ok <==> old(self)@.current_snapshot(branch.deep_view()) is Some,
            done is Ok ==> final(self)@ == old(self)@.with_current_replaced(
                branch.deep_view(),
                SnapshotModel {
                    files: old(self)@.current_snapshot(branch.deep_view())->Some_0.files
                        + files.deep_view(),
                    ..old(self)@.current_snapshot(branch.deep_view())->Some_0
                },
            ),
            done is Err ==> final(self)@ == old(self)@ && (done->Err_0
                matches IcebergError::InvalidFormat(what) && what@ == "snapshot"@),
    {
        let ghost before = self@;
        let place = match self.current_snapshot_id_of(branch) {
            Some(id) => self.snapshot_position(id),
            None => self.snapshots.len(),
        };
        if place >= self.snapshots.len() {
            return Err(IcebergError::InvalidFormat(String::from_str("snapshot")));
        }
        let mut files = files;
        let mut snapshot = self.snapshots.remove(place);
        let ghost old_files = snapshot.files.deep_view();
        let ghost new_files = files.deep_view();
        snapshot.files.append(&mut files);
        assert(snapshot.files.deep_view() =~= old_files + new_files);
        self.snapshots.insert(place, snapshot);
        assert(self@.snapshots =~= before.snapshots.update(place as int, snapshot.deep_view()));
        Ok(())
    }

    /// Puts entries into the summary of the current snapshot, in order. A
    /// later value for a key takes the place of an earlier one.
    pub fn update_summary(&mut self, branch: &Option<String>, entries: &Vec<(String, String)>) -> (done:
        Result<(), IcebergError>)
        ensures
            done is Ok <==> old(self)@.current_snapshot(branch.deep_view()) is Some,
            done is Ok ==> final(self)@ == old(self)@.with_current_replaced(
                branch.deep_view(),
                SnapshotModel {
                    summary: with_entries(
                        old(self)@.current_snapshot(branch.deep_view())->Some_0.summary,
                        entries.deep_view(),
                    ),
                    ..old(self)@.current_snapshot(branch.deep_view())->Some_0
                },
            ),
            done is Err ==> final(self)@ == old(self)@ && (done->Err_0
                matches IcebergError::InvalidFormat(what) && what@ == "snapshot"@),
    {
        let ghost before = self@;
        let place = match self.current_snapshot_id_of(branch) {
            Some(id) => self.snapshot_position(id),
            None => self.snapshots.len(),
        };
        if place >= self.snapshots.len() {
            return Err(IcebergError::InvalidFormat(String::from_str("snapshot")));
        }
        let mut snapshot = self.snapshots.remove(place);
        let ghost start = snapshot.deep_view();
        let ghost more = entries.deep_view();
        let mut i: usize = 0;
        assert(more.skip(0) =~= more);
        while i < entries.len()
            invariant
                i <= entries.len(),
                more == entries.deep_view(),
                snapshot.deep_view() == (SnapshotModel {
                    summary: snapshot.summary@,
                    ..start
                }),
                with_entries(snapshot.summary@, more.skip(i as int)) == with_entries(
                    start.summary,
                    more,
                ),
            decreases entries.len() - i,
        {
            assert(more.skip(i as int).drop_first() =~= more.skip(i + 1));
            snapshot.summary.insert(entries[i].0.clone(), entries[i].1.clone());
            i = i + 1;
        }
        self.snapshots.insert(place, snapshot);
        assert(self@.snapshots =~= before.snapshots.update(place as int, snapshot.deep_view()));
        Ok(())
    }

    /// The first version of a table that takes the place of this one: the
    /// same format version, location, schemas and partition specs, and no
    /// history.
    pub fn start_over(&self) -> (fresh: TableMetadata)
        ensures
            fresh@ == self@.started_over(),
    {
        let schemas = self.schemas.clone();
        assert(schemas.deep_view() =~= self.schemas.deep_view());
        let partition_specs = self.partition_specs.clone();
        assert(partition_specs.deep_view() =~= self.partition_specs.deep_view());
        let fresh = TableMetadata {
            format_version: self.format_version,
            location: self.location.clone(),
            last_sequence_number: 0,
            schemas,
            current_schema_id: self.current_schema_id,
            partition_specs,
            default_spec_id: self.default_spec_id,
            snapshots: Vec::new(),
            current_snapshot_id: None,
            refs: Vec::new(),
        };
        assert(fresh.snapshots.deep_view() =~= Seq::<SnapshotModel>::empty());
        assert(fresh.refs.deep_view() =~= Seq::<(Seq<char>, i64)>::empty());
        fresh
    }
}

/// Whether `x` stands in `s`.
pub open spec fn occurs<T>(s: Seq<T>, x: T) -> bool {
    first_index(s, x) < s.len()
}

pub proof fn lemma_occurs<T>(s: Seq<T>, x: T)
    ensures
        occurs(s, x) <==> exists|i: int| 0 <= i < s.len() && s[i] == x,
{
    lemma_first_index_bounds(s, x);
    if occurs(s, x) {
        assert(s[first_index(s, x)] == x);
    }
    if exists|i: int| 0 <= i < s.len() && s[i] == x {
        let i = choose|i: int| 0 <= i < s.len() && s[i] == x;
        if !occurs(s, x) {
            assert(s[i] != x);
        }
    }
}

/// A new snapshot keeps metadata well formed: its id is in use nowhere, and
/// it is what is recorded as current.
pub proof fn lemma_with_new_snapshot_wf(metadata: MetadataModel, branch: Option<Seq<char>>)
    requires
        metadata.wf(),
        metadata.next_snapshot_id() <= i64::MAX,
    ensures
        metadata.with_new_snapshot(branch).wf(),
        metadata.with_new_snapshot(branch).current_id(branch) == Some(
            metadata.next_snapshot_id() as i64,
        ),
        metadata.with_new_snapshot(branch).last_sequence_number == metadata.last_sequence_number,
{
    let id = metadata.next_snapshot_id() as i64;
    let after = metadata.with_new_snapshot(branch);
    let old_ids = snapshot_ids(metadata.snapshots);
    let new_ids = snapshot_ids(after.snapshots);
    lemma_max_snapshot_id(metadata.snapshots);
    assert(new_ids =~= old_ids.push(id));
    assert forall|i: int| 0 <= i < old_ids.len() implies old_ids[i] != id by {
        assert(metadata.snapshots[i].snapshot_id <= max_snapshot_id(metadata.snapshots));
    }
    assert(new_ids.no_duplicates());
    assert forall|other: i64| metadata.has_snapshot(other) implies after.has_snapshot(other) by {
        lemma_occurs(old_ids, other);
        let i = choose|i: int| 0 <= i < old_ids.len() && old_ids[i] == other;
        assert(new_ids[i] == other);
        lemma_occurs(new_ids, other);
    }
    assert(after.has_snapshot(id)) by {
        assert(new_ids[old_ids.len() as int] == id);
        lemma_occurs(new_ids, id);
    }
    assert(after.has_schema(after.current_schema_id));
    assert(after.has_spec(after.default_spec_id));
    match branch {
        None => {
            assert forall|i: int| 0 <= i < after.refs.len() implies after.has_snapshot(
                (#[trigger] after.refs[i]).1,
            ) by {
                assert(metadata.has_snapshot(metadata.refs[i].1));
            }
        },
        Some(name) => {
            crate::summary::lemma_key_index(metadata.refs, name);
            assert forall|i: int| 0 <= i < after.refs.len() implies after.has_snapshot(
                (#[trigger] after.refs[i]).1,
            ) by {
                if i < metadata.refs.len() && i != key_index(metadata.refs, name) {
                    assert(after.refs[i] == metadata.refs[i]);
                    assert(metadata.has_snapshot(metadata.refs[i].1));
                } else {
                    assert(after.refs[i] == (name, id));
                }
            }
            crate::summary::lemma_with_entry_value(metadata.refs, name, id);
            if metadata.current_snapshot_id is Some {
                assert(metadata.has_snapshot(metadata.current_snapshot_id->Some_0));
            }
        },
    }
}

/// A new snapshot is the current one: it has the next id and the sequence
/// number of the metadata, and neither entries nor files.
pub proof fn lemma_with_new_snapshot_current(metadata: MetadataModel, branch: Option<Seq<char>>)
    requires
        metadata.next_snapshot_id() <= i64::MAX,
    ensures
        metadata.with_new_snapshot(branch).current_snapshot(branch) == Some(
            SnapshotModel {
                snapshot_id: metadata.next_snapshot_id() as i64,
                sequence_number: metadata.last_sequence_number,
                summary: Seq::empty(),
                files: Seq::empty(),
            },
        ),
{
    let id = metadata.next_snapshot_id() as i64;
    let after = metadata.with_new_snapshot(branch);
    let old_ids = snapshot_ids(metadata.snapshots);
    let new_ids = snapshot_ids(after.snapshots);
    lemma_max_snapshot_id(metadata.snapshots);
    assert(new_ids =~= old_ids.push(id));
    assert forall|i: int| 0 <= i < old_ids.len() implies new_ids[i] != id by {
        assert(metadata.snapshots[i].snapshot_id <= max_snapshot_id(metadata.snapshots));
    }
    lemma_first_index_is(new_ids, id, old_ids.len() as int);
    match branch {
        None => {},
        Some(name) => {
            crate::summary::lemma_with_entry_value(metadata.refs, name, id);
        },
    }
}

/// After the current snapshot has been replaced by one of the same id, the
/// replacement is the current snapshot.
pub proof fn lemma_with_current_replaced_current(
    metadata: MetadataModel,
    branch: Option<Seq<char>>,
    snapshot: SnapshotModel,
)
    requires
        metadata.current_snapshot(branch) is Some,
        snapshot.snapshot_id == metadata.current_snapshot(branch)->Some_0.snapshot_id,
    ensures
        metadata.with_current_replaced(branch, snapshot).current_snapshot(branch) == Some(
            snapshot,
        ),
{
    let after = metadata.with_current_replaced(branch, snapshot);
    let id = metadata.current_id(branch)->Some_0;
    lemma_first_index_bounds(snapshot_ids(metadata.snapshots), id);
    assert(snapshot_ids(after.snapshots) =~= snapshot_ids(metadata.snapshots));
}

/// Replacing the current snapshot by one of the same id keeps metadata well
/// formed.
pub proof fn lemma_with_current_replaced_wf(
    metadata: MetadataModel,
    branch: Option<Seq<char>>,
    snapshot: SnapshotModel,
)
    requires
        metadata.wf(),
        metadata.current_snapshot(branch) is Some,
        snapshot.snapshot_id == metadata.current_snapshot(branch)->Some_0.snapshot_id,
    ensures
        metadata.with_current_replaced(branch, snapshot).wf(),
{
    let after = metadata.with_current_replaced(branch, snapshot);
    let id = metadata.current_id(branch)->Some_0;
    lemma_first_index_bounds(snapshot_ids(metadata.snapshots), id);
    assert(snapshot_ids(after.snapshots) =~= snapshot_ids(metadata.snapshots));
}

/// Taking a schema into use keeps metadata well formed.
pub proof fn lemma_with_current_schema_wf(metadata: MetadataModel, schema: SchemaModel)
    requires
        metadata.wf(),
    ensures
        metadata.with_current_schema(schema).wf(),
{
    let ids = schema_ids(metadata.schemas);
    let after = metadata.with_current_schema(schema);
    let new_ids = schema_ids(after.schemas);
    lemma_first_index_bounds(ids, schema.schema_id);
    let i = first_index(ids, schema.schema_id);
    assert(new_ids[i] == schema.schema_id);
    lemma_occurs(new_ids, schema.schema_id);
}

} // verus!

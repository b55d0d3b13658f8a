//! The storage table of a materialized view: the table that holds the
//! result of the view's query, and the bookkeeping that tells how stale
//! that result is.
//!
//! Every refresh writes two entries into the summary of the snapshot it
//! makes: the version of the view that was materialized, and for each base
//! table the snapshot that the result was computed from. A later check
//! compares those snapshot ids with the ones the base tables have by then.
use crate::error::IcebergError;
use crate::identifier::{identifier_of, Identifier};
use crate::metadata::MetadataModel;
use crate::namespace::no_empty_level;
use crate::summary::value_of;
use crate::table::{Table, Tabular};
use crate::text::{
    decimal, interspersed, joined, split, split_on, trim_start_matches, without_leading,
};
use vstd::prelude::*;
use vstd::string::*;

verus! {

/// The key of the summary entry that records the version of the view.
pub open spec fn version_key() -> Seq<char> {
    "version-id"@
}

/// The key of the summary entry that records the base tables.
pub open spec fn base_tables_key() -> Seq<char> {
    "base-tables"@
}

/// The snapshot id that stands for a base table that was never captured.
pub open spec fn never_captured() -> i64 {
    -1i64
}

/// A table that holds the materialized result of a query, and the query.
#[derive(Debug, PartialEq, Eq)]
pub struct StorageTable {
    /// The table that holds the result
    pub table: Table,
    /// The text of the query
    pub sql: String,
}

impl std::ops::Deref for StorageTable {
    type Target = Table;

    fn deref(&self) -> (table: &Table)
        ensures
            *table == self.table,
    {
        &self.table
    }
}

impl std::ops::DerefMut for StorageTable {
    fn deref_mut(&mut self) -> (table: &mut Table)
        ensures
            *table == old(self).table,
            final(self).table == *final(table),
            final(self).sql == old(self).sql,
    {
        &mut self.table
    }
}

/// How the materialized result stands to one of its base tables.
#[derive(Clone, Copy, Debug, PartialEq, Eq, Structural)]
pub enum StorageTableState {
    /// The base table has not changed since the last refresh.
    Fresh,
    /// The base table has changed; the result was computed from the
    /// snapshot of the given id.
    Outdated(i64),
    /// Nothing is known of an earlier refresh: only a full refresh helps.
    Invalid,
}

/// A base table of a materialized view, and the snapshot of it that the
/// last refresh read.
#[derive(Debug, PartialEq, Eq)]
pub struct BaseTable {
    /// The identifier of the base table, as text
    pub identifier: String,
    /// The id of the snapshot that was read
    pub snapshot_id: i64,
}

impl DeepView for BaseTable {
    type V = (Seq<char>, i64);

    open spec fn deep_view(&self) -> (Seq<char>, i64) {
        (self.identifier@, self.snapshot_id)
    }
}

impl Clone for BaseTable {
    fn clone(&self) -> (copy: Self)
        ensures
            copy.deep_view() == self.deep_view(),
    {
        BaseTable { identifier: self.identifier.clone(), snapshot_id: self.snapshot_id }
    }
}

/// The state of a base table whose recorded snapshot id is `recorded` and
/// whose current snapshot id is `live`.
pub open spec fn classified(recorded: Option<i64>, live: Option<i64>) -> StorageTableState {
    match recorded {
        None => StorageTableState::Invalid,
        Some(id) => if live == Some(id) {
            StorageTableState::Fresh
        } else if id == never_captured() {
            StorageTableState::Invalid
        } else {
            StorageTableState::Outdated(id)
        },
    }
}

/// A recorded snapshot id that is the base table's current one means fresh;
/// otherwise the id of a table never captured means invalid; any other id
/// means outdated, and the state carries that id. Without a recorded id the
/// state is invalid.
pub proof fn lemma_classified(recorded: Option<i64>, live: Option<i64>)
    ensures
        recorded is Some && live == recorded ==> classified(recorded, live)
            == StorageTableState::Fresh,
        recorded == Some(never_captured()) && live != recorded ==> classified(recorded, live)
            == StorageTableState::Invalid,
        recorded is Some && recorded != Some(never_captured()) && live != recorded ==> classified(
            recorded,
            live,
        ) == StorageTableState::Outdated(recorded->Some_0),
        recorded is None ==> classified(recorded, live) == StorageTableState::Invalid,
{
}

/// Tells how the materialized result stands to a base table, from the
/// snapshot id recorded at the last refresh and the id of the base table's
/// current snapshot.
pub fn classify(recorded: Option<i64>, live: Option<i64>) -> (state: StorageTableState)
    ensures
        state == classified(recorded, live),
{
    match recorded {
        None => StorageTableState::Invalid,
        Some(id) => {
            let is_live = match live {
                Some(current) => current == id,
                None => false,
            };
            if is_live {
                StorageTableState::Fresh
            } else if id == -1 {
                StorageTableState::Invalid
            } else {
                StorageTableState::Outdated(id)
            }
        },
    }
}

/// The integer that a JSON text denotes, if it denotes one that fits.
pub uninterp spec fn json_i64(text: Seq<char>) -> Option<i64>;

/// Reads an integer with `serde_json::from_str`. Whether a text is read,
/// and as which integer, depends on the text alone.
#[verifier::external_body]
fn i64_from_json(text: &str) -> (read: Result<i64, serde_json::Error>)
    ensures
        read is Ok <==> json_i64(text@) is Some,
        read is Ok ==> Some(read->Ok_0) == json_i64(text@),
{
    serde_json::from_str::<i64>(text)
}

/// Writes an integer with `serde_json::to_string`. The integer is written
/// into memory, which cannot fail, as its decimal numeral: a minus sign for
/// a negative one, then the digits without leading zeros. That numeral is
/// one that `serde_json::from_str` reads as the same integer.
#[verifier::external_body]
pub(crate) fn i64_to_json(value: i64) -> (text: Result<String, serde_json::Error>)
    ensures
        text is Ok,
        text->Ok_0@ == decimal(value as int),
        json_i64(text->Ok_0@) == Some(value),
{
    serde_json::to_string(&value)
}

/// The text recorded under `key` in the summary of the current snapshot.
pub open spec fn recorded(metadata: MetadataModel, branch: Option<Seq<char>>, key: Seq<char>)
    -> Option<Seq<char>> {
    match metadata.current_snapshot(branch) {
        Some(snapshot) => value_of(snapshot.summary, key),
        None => None,
    }
}

/// The version that the current snapshot records: the integer that the text
/// under the version key denotes, if there is such a text and it denotes
/// one.
pub open spec fn recorded_version(metadata: MetadataModel, branch: Option<Seq<char>>) -> Option<
    i64,
> {
    match recorded(metadata, branch, version_key()) {
        Some(text) => json_i64(text),
        None => None,
    }
}

/// The version that a read of the recorded text stands for.
pub fn version_read(read: Result<i64, serde_json::Error>) -> (version: Result<
    Option<i64>,
    IcebergError,
>)
    ensures
        read is Ok ==> version == Ok::<Option<i64>, IcebergError>(Some(read->Ok_0)),
        read is Err ==> version == Err::<Option<i64>, IcebergError>(
            IcebergError::JSONSerde(read->Err_0),
        ),
{
    match read {
        Ok(version) => Ok(Some(version)),
        Err(error) => Err(IcebergError::JSONSerde(error)),
    }
}

impl StorageTable {
    /// Returns the version id of the last refresh. There is none where the
    /// table has no current snapshot or the snapshot does not record one.
    pub fn version_id(&self, branch: Option<String>) -> (version: Result<Option<i64>, IcebergError>)
        ensures
            self.table.metadata@.is_dangling(branch.deep_view()) ==> (version matches Err(
                IcebergError::InvalidFormat(what),
            ) && what@ == "snapshot"@),
            !self.table.metadata@.is_dangling(branch.deep_view()) && recorded(
                self.table.metadata@,
                branch.deep_view(),
                version_key(),
            ) is None ==> version == Ok::<Option<i64>, IcebergError>(None),
            !self.table.metadata@.is_dangling(branch.deep_view()) && recorded(
                self.table.metadata@,
                branch.deep_view(),
                version_key(),
            ) is Some ==> (version is Ok <==> json_i64(
                recorded(self.table.metadata@, branch.deep_view(), version_key())->Some_0,
            ) is Some),
            version is Ok && recorded(self.table.metadata@, branch.deep_view(), version_key())
                is Some ==> version->Ok_0 == json_i64(
                recorded(self.table.metadata@, branch.deep_view(), version_key())->Some_0,
            ),
            !self.table.metadata@.is_dangling(branch.deep_view()) && version is Err
                ==> version->Err_0 is JSONSerde,
            version is Ok ==> version->Ok_0 == recorded_version(
                self.table.metadata@,
                branch.deep_view(),
            ),
    {
        match self.table.metadata.current_snapshot(&branch) {
            Err(error) => Err(error),
            Ok(None) => Ok(None),
            Ok(Some(snapshot)) => match snapshot.summary.get("version-id") {
                None => Ok(None),
                Some(json) => version_read(i64_from_json(json.as_str())),
            },
        }
    }
}

/// What the caller of a staleness check has to do next.
#[derive(Debug, PartialEq, Eq)]
pub enum LookupAction {
    /// Decode the recorded list of base tables.
    DecodeBaseTables { json: String },
    /// Find the relations that the query reads.
    FindRelations { sql: String },
    /// Load what the catalog holds under the identifier.
    LoadTable { identifier: Identifier },
    /// Load the storage table of the materialized view of that identifier.
    LoadStorageTable { identifier: Identifier, branch: Option<String> },
}

/// What came of the action that a staleness check asked for.
#[derive(Debug)]
pub enum LookupEvent {
    /// The recorded base tables.
    Decoded(Vec<BaseTable>),
    /// The relations that the query reads, in the order in which they
    /// occur. Each is given by its full name, which begins with the name of
    /// the catalog: the check drops that first part and looks the rest up,
    /// so `lake.db.t1` is looked up as `db.t1`, and a name given as `db.t1`
    /// would be looked up as `t1`.
    Relations(Vec<String>),
    /// What the catalog holds under the identifier.
    Loaded(Tabular),
    /// The storage table of the materialized view.
    StorageTable(Table),
    /// The action failed.
    Failed(IcebergError),
}

/// Which answer a staleness check waits for.
#[derive(Clone, Copy, Debug, PartialEq, Eq, Structural)]
pub enum LookupPhase {
    /// The recorded base tables are being decoded.
    Decoding,
    /// The relations of the query are being found.
    Extracting,
    /// The next base table is being loaded.
    Loading,
    /// The storage table behind the next base table is being loaded.
    Resolving,
}

/// A staleness check under way, between two actions.
#[derive(Debug)]
pub struct BaseTablesLookup {
    /// The branch whose snapshots are compared
    pub branch: Option<String>,
    /// The base tables, each with the snapshot id recorded for it if any
    pub dependencies: Vec<(String, Option<i64>)>,
    /// The base tables looked at so far, in the order of the dependencies
    pub resolved: Vec<(Table, StorageTableState)>,
    /// The answer that is waited for
    pub phase: LookupPhase,
}

/// What an event makes of a staleness check.
#[derive(Debug)]
pub enum LookupStep {
    /// The check goes on with the given action.
    Continue(BaseTablesLookup, LookupAction),
    /// Every base table has been looked at.
    Finished(Vec<(Table, StorageTableState)>),
    /// The check is given up.
    Failed(IcebergError),
}

/// The dependencies that recorded base tables stand for.
pub open spec fn recorded_dependencies(records: Seq<(Seq<char>, i64)>) -> Seq<
    (Seq<char>, Option<i64>),
> {
    Seq::new(records.len(), |i: int| (records[i].0, Some(records[i].1)))
}

/// A dotted name without its first part.
pub open spec fn without_first_part(name: Seq<char>) -> Seq<char> {
    joined(split_on(name, '.').drop_first(), "."@)
}

/// The dependencies that the relations of a query stand for: each relation
/// without the first part of its name, which names the catalog, and with no
/// recorded snapshot id.
pub open spec fn discovered_dependencies(names: Seq<Seq<char>>) -> Seq<(Seq<char>, Option<i64>)> {
    Seq::new(names.len(), |i: int| (without_first_part(names[i]), None::<i64>))
}

/// The names in a pointer to a base table.
pub open spec fn pointer_names(pointer: Seq<char>) -> Seq<Seq<char>> {
    split_on(without_leading(pointer, "identifier:"@), '.')
}

/// The id of the current snapshot, if there is one.
pub open spec fn live_id(metadata: MetadataModel, branch: Option<Seq<char>>) -> Option<i64> {
    match metadata.current_snapshot(branch) {
        Some(snapshot) => Some(snapshot.snapshot_id),
        None => None,
    }
}

/// The state of a base table with the given metadata, or nothing where a
/// recorded id has to be compared and the base table's own record of its
/// current snapshot is broken.
pub open spec fn assessed(
    recorded: Option<i64>,
    metadata: MetadataModel,
    branch: Option<Seq<char>>,
) -> Option<StorageTableState> {
    if recorded is Some && metadata.is_dangling(branch) {
        None
    } else if recorded is Some {
        Some(classified(recorded, live_id(metadata, branch)))
    } else {
        Some(StorageTableState::Invalid)
    }
}

/// Whether `step` is how a check goes on once `resolved` holds the base
/// tables looked at so far: it is finished when there is one for every
/// dependency; else the next dependency's pointer is read as an
/// identifier, and that identifier is to be loaded. A pointer with an empty
/// name in it ends the check.
pub open spec fn is_next(
    dependencies: Seq<(Seq<char>, Option<i64>)>,
    resolved: Seq<(Table, StorageTableState)>,
    branch: Option<String>,
    step: LookupStep,
) -> bool {
    if resolved.len() >= dependencies.len() {
        step matches LookupStep::Finished(all) && all@ == resolved
    } else if no_empty_level(pointer_names(dependencies[resolved.len() as int].0)) {
        step matches LookupStep::Continue(next, action) && next.branch == branch
            && next.dependencies.deep_view() == dependencies && next.resolved@ == resolved
            && next.phase is Loading && (action matches LookupAction::LoadTable { identifier }
            && identifier@ == identifier_of(
            pointer_names(dependencies[resolved.len() as int].0),
        ))
    } else if pointer_names(dependencies[resolved.len() as int].0).last().len() == 0 {
        step matches LookupStep::Failed(IcebergError::InvalidFormat(what)) && what@
            == "table name"@
    } else {
        step matches LookupStep::Failed(IcebergError::InvalidFormat(what)) && what@
            == "namespace sequence"@
    }
}

/// The ways in which an event can bear on a staleness check.
pub enum LookupKind {
    /// The list of base tables has come.
    Listed(Seq<(Seq<char>, Option<i64>)>),
    /// The next base table has come.
    Found(Table),
    /// The next base table is a materialized view.
    Materialized(Identifier),
    /// The next base table is neither a table nor a materialized view.
    NotStorage,
    /// The action failed.
    Failed,
    /// The event does not answer the action that was asked for.
    Unexpected,
}

/// How `event` bears on `state`.
pub open spec fn lookup_kind(state: BaseTablesLookup, event: LookupEvent) -> LookupKind {
    let waiting = state.resolved@.len() < state.dependencies@.len();
    match (state.phase, event) {
        (_, LookupEvent::Failed(_)) => LookupKind::Failed,
        (LookupPhase::Decoding, LookupEvent::Decoded(records)) => LookupKind::Listed(
            recorded_dependencies(records.deep_view()),
        ),
        (LookupPhase::Extracting, LookupEvent::Relations(names)) => LookupKind::Listed(
            discovered_dependencies(names.deep_view()),
        ),
        (LookupPhase::Loading, LookupEvent::Loaded(tabular)) => if !waiting {
            LookupKind::Unexpected
        } else {
            match tabular {
                Tabular::Table(table) => LookupKind::Found(table),
                Tabular::MaterializedView(identifier) => LookupKind::Materialized(identifier),
                Tabular::View(_) => LookupKind::NotStorage,
            }
        },
        (LookupPhase::Resolving, LookupEvent::StorageTable(table)) => if !waiting {
            LookupKind::Unexpected
        } else {
            LookupKind::Found(table)
        },
        _ => LookupKind::Unexpected,
    }
}

/// Whether `step` is what `event` makes of `state`.
pub open spec fn is_lookup_step(state: BaseTablesLookup, event: LookupEvent, step: LookupStep)
    -> bool {
    match lookup_kind(state, event) {
        LookupKind::Listed(dependencies) => is_next(
            dependencies,
            state.resolved@,
            state.branch,
            step,
        ),
        LookupKind::Found(table) => match assessed(
            state.dependencies@[state.resolved@.len() as int].1,
            table.metadata@,
            state.branch.deep_view(),
        ) {
            Some(found) => is_next(
                state.dependencies.deep_view(),
                state.resolved@.push((table, found)),
                state.branch,
                step,
            ),
            None => step matches LookupStep::Failed(IcebergError::InvalidFormat(what)) && what@
                == "snapshot"@,
        },
        LookupKind::Materialized(identifier) => step matches LookupStep::Continue(next, action)
            && next.branch == state.branch && next.dependencies == state.dependencies
            && next.resolved == state.resolved && next.phase is Resolving && (action
            matches LookupAction::LoadStorageTable { identifier: wanted, branch }
            && wanted == identifier && branch.deep_view() == state.branch.deep_view()),
        LookupKind::NotStorage => step matches LookupStep::Failed(IcebergError::InvalidFormat(what))
            && what@ == "storage table"@,
        LookupKind::Failed => step matches LookupStep::Failed(error) && event
            == LookupEvent::Failed(error),
        LookupKind::Unexpected => step matches LookupStep::Failed(
            IcebergError::InvalidFormat(what),
        ) && what@ == "unexpected event"@,
    }
}

/// Whether `state` and `action` start a staleness check on a storage table
/// with the given metadata and query: where the current snapshot records
/// its base tables, the record is to be decoded; else the relations of the
/// query are to be found.
pub open spec fn is_lookup_start(
    state: BaseTablesLookup,
    action: LookupAction,
    metadata: MetadataModel,
    sql: Seq<char>,
    branch: Option<String>,
) -> bool {
    &&& state.branch == branch
    &&& state.dependencies@.len() == 0
    &&& state.resolved@.len() == 0
    &&& match recorded(metadata, branch.deep_view(), base_tables_key()) {
        Some(text) => state.phase is Decoding && (action matches LookupAction::DecodeBaseTables {
            json,
        } && json@ == text),
        None => state.phase is Extracting && (action matches LookupAction::FindRelations {
            sql: query,
        } && query@ == sql),
    }
}

/// Drops the first part of a dotted name.
pub fn drop_first_part(name: &str) -> (rest: String)
    ensures
        rest@ == without_first_part(name@),
{
    let mut parts = split(name, '.');
    let ghost all = parts.deep_view();
    parts.remove(0);
    assert(parts.deep_view() =~= all.drop_first());
    interspersed(&parts, ".")
}

fn unexpected() -> (step: LookupStep)
    ensures
        step matches LookupStep::Failed(IcebergError::InvalidFormat(what)) && what@
            == "unexpected event"@,
{
    LookupStep::Failed(IcebergError::InvalidFormat(String::from_str("unexpected event")))
}

fn next_step(
    branch: Option<String>,
    dependencies: Vec<(String, Option<i64>)>,
    resolved: Vec<(Table, StorageTableState)>,
) -> (step: LookupStep)
    ensures
        is_next(dependencies.deep_view(), resolved@, branch, step),
{
    let k = resolved.len();
    if k >= dependencies.len() {
        return LookupStep::Finished(resolved);
    }
    assert(dependencies.deep_view()[k as int].0 == dependencies[k as int].0@);
    let pointer = trim_start_matches(dependencies[k].0.as_str(), "identifier:");
    match Identifier::parse(pointer.as_str()) {
        Err(error) => LookupStep::Failed(error),
        Ok(identifier) => LookupStep::Continue(
            BaseTablesLookup { branch, dependencies, resolved, phase: LookupPhase::Loading },
            LookupAction::LoadTable { identifier },
        ),
    }
}

fn found_step(
    branch: Option<String>,
    dependencies: Vec<(String, Option<i64>)>,
    resolved: Vec<(Table, StorageTableState)>,
    table: Table,
) -> (step: LookupStep)
    requires
        resolved@.len() < dependencies@.len(),
    ensures
        match assessed(
            dependencies@[resolved@.len() as int].1,
            table.metadata@,
            branch.deep_view(),
        ) {
            Some(found) => is_next(
                dependencies.deep_view(),
                resolved@.push((table, found)),
                branch,
                step,
            ),
            None => step matches LookupStep::Failed(IcebergError::InvalidFormat(what)) && what@
                == "snapshot"@,
        },
{
    let k = resolved.len();
    let state = match dependencies[k].1 {
        None => StorageTableState::Invalid,
        Some(id) => match table.metadata.current_snapshot(&branch) {
            Err(error) => {
                return LookupStep::Failed(error);
            },
            Ok(Some(snapshot)) => classify(Some(id), Some(snapshot.snapshot_id)),
            Ok(None) => classify(Some(id), None),
        },
    };
    let mut resolved = resolved;
    resolved.push((table, state));
    next_step(branch, dependencies, resolved)
}

impl BaseTablesLookup {
    /// Takes the check one step further.
    pub fn advance(self, event: LookupEvent) -> (step: LookupStep)
        ensures
            is_lookup_step(self, event, step),
    {
        let BaseTablesLookup { branch, dependencies, resolved, phase } = self;
        match event {
            LookupEvent::Failed(error) => LookupStep::Failed(error),
            LookupEvent::Decoded(records) => match phase {
                LookupPhase::Decoding => {
                    let mut listed: Vec<(String, Option<i64>)> = Vec::new();
                    let ghost all = records.deep_view();
                    for record in it: records.into_iter()
                        invariant
                            it.seq().len() == all.len(),
                            forall|j: int|
                                0 <= j < all.len() ==> (#[trigger] it.seq()[j]).deep_view()
                                    == all[j],
                            listed.deep_view() == recorded_dependencies(all).take(
                                it.index() as int,
                            ),
                    {
                        let ghost before = listed.deep_view();
                        let BaseTable { identifier, snapshot_id } = record;
                        listed.push((identifier, Some(snapshot_id)));
                        assert(listed.deep_view() =~= before.push(
                            recorded_dependencies(all)[it.index() as int],
                        ));
                        assert(recorded_dependencies(all).take(it.index() + 1) =~= before.push(
                            recorded_dependencies(all)[it.index() as int],
                        ));
                    }
                    assert(recorded_dependencies(all).take(all.len() as int)
                        =~= recorded_dependencies(all));
                    next_step(branch, listed, resolved)
                },
                _ => unexpected(),
            },
            LookupEvent::Relations(names) => match phase {
                LookupPhase::Extracting => {
                    let mut listed: Vec<(String, Option<i64>)> = Vec::new();
                    let ghost all = names.deep_view();
                    let mut i: usize = 0;
                    while i < names.len()
                        invariant
                            i <= names.len(),
                            all == names.deep_view(),
                            listed.deep_view() == discovered_dependencies(all).take(i as int),
                        decreases names.len() - i,
                    {
                        let ghost before = listed.deep_view();
                        listed.push((drop_first_part(names[i].as_str()), None));
                        assert(listed.deep_view() =~= before.push(
                            discovered_dependencies(all)[i as int],
                        ));
                        assert(discovered_dependencies(all).take(i + 1) =~= before.push(
                            discovered_dependencies(all)[i as int],
                        ));
                        i = i + 1;
                    }
                    assert(discovered_dependencies(all).take(all.len() as int)
                        =~= discovered_dependencies(all));
                    next_step(branch, listed, resolved)
                },
                _ => unexpected(),
            },
            LookupEvent::Loaded(tabular) => match phase {
                LookupPhase::Loading => {
                    if resolved.len() >= dependencies.len() {
                        return unexpected();
                    }
                    match tabular {
                        Tabular::Table(table) => found_step(branch, dependencies, resolved, table),
                        Tabular::MaterializedView(identifier) => {
                            let wanted = branch.clone();
                            assert(wanted.deep_view() == branch.deep_view());
                            LookupStep::Continue(
                                BaseTablesLookup {
                                    branch,
                                    dependencies,
                                    resolved,
                                    phase: LookupPhase::Resolving,
                                },
                                LookupAction::LoadStorageTable { identifier, branch: wanted },
                            )
                        },
                        Tabular::View(_) => LookupStep::Failed(
                            IcebergError::InvalidFormat(String::from_str("storage table")),
                        ),
                    }
                },
                _ => unexpected(),
            },
            LookupEvent::StorageTable(table) => match phase {
                LookupPhase::Resolving => {
                    if resolved.len() >= dependencies.len() {
                        return unexpected();
                    }
                    found_step(branch, dependencies, resolved, table)
                },
                _ => unexpected(),
            },
        }
    }
}

impl StorageTable {
    /// Starts a check of the base tables: which tables the view reads, and
    /// how the materialized result stands to each of them.
    pub fn base_tables(&self, branch: Option<String>) -> (begun: Result<
        (BaseTablesLookup, LookupAction),
        IcebergError,
    >)
        ensures
            begun is Ok <==> !self.table.metadata@.is_dangling(branch.deep_view()),
            begun is Ok ==> is_lookup_start(
                begun->Ok_0.0,
                begun->Ok_0.1,
                self.table.metadata@,
                self.sql@,
                branch,
            ),
            begun is Err ==> (begun->Err_0 matches IcebergError::InvalidFormat(what) && what@
                == "snapshot"@),
    {
        let recorded = match self.table.metadata.current_snapshot(&branch) {
            Err(error) => {
                return Err(error);
            },
            Ok(None) => None,
            Ok(Some(snapshot)) => snapshot.summary.get("base-tables"),
        };
        match recorded {
            Some(json) => Ok(
                (
                    BaseTablesLookup {
                        branch,
                        dependencies: Vec::new(),
                        resolved: Vec::new(),
                        phase: LookupPhase::Decoding,
                    },
                    LookupAction::DecodeBaseTables { json: json.clone() },
                ),
            ),
            None => Ok(
                (
                    BaseTablesLookup {
                        branch,
                        dependencies: Vec::new(),
                        resolved: Vec::new(),
                        phase: LookupPhase::Extracting,
                    },
                    LookupAction::FindRelations { sql: self.sql.clone() },
                ),
            ),
        }
    }
}

} // verus!

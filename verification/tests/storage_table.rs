use std::collections::HashMap;

use iceberg_rust::error::IcebergError;
use iceberg_rust::file_format::{DatafileMetadata, ParquetMetadata};
use iceberg_rust::identifier::Identifier;
use iceberg_rust::metadata::{FormatVersion, SchemaV2, Snapshot, StructField, TableMetadata};
use iceberg_rust::partition::PartitionSpec;
use iceberg_rust::refresh::{RefreshAction, RefreshEvent, RefreshProgress, RefreshState};
use iceberg_rust::storage_table::{
    classify, drop_first_part, version_read, BaseTable, BaseTablesLookup, LookupAction,
    LookupEvent, LookupPhase, LookupStep, StorageTable, StorageTableState,
};
use iceberg_rust::summary::Summary;
use iceberg_rust::table::{Table, Tabular};
use iceberg_rust::transaction::{CommitAction, CommitEvent};

fn metadata(location: &str) -> TableMetadata {
    TableMetadata {
        format_version: FormatVersion::V2,
        location: location.to_string(),
        last_sequence_number: 3,
        schemas: vec![SchemaV2 {
            schema_id: 4,
            fields: vec![StructField {
                id: 1,
                name: "id".to_string(),
                required: true,
                field_type: "long".to_string(),
            }],
        }],
        current_schema_id: 4,
        partition_specs: vec![PartitionSpec {
            spec_id: 2,
            fields: vec![],
        }],
        default_spec_id: 2,
        snapshots: vec![],
        current_snapshot_id: None,
        refs: vec![],
    }
}

fn with_snapshot(mut metadata: TableMetadata, id: i64, entries: &[(&str, &str)]) -> TableMetadata {
    let mut summary = Summary::new();
    for (key, value) in entries {
        summary.insert(key.to_string(), value.to_string());
    }
    metadata.snapshots.push(Snapshot {
        snapshot_id: id,
        sequence_number: metadata.last_sequence_number,
        summary,
        files: vec![],
    });
    metadata.current_snapshot_id = Some(id);
    metadata
}

fn table(name: &str, metadata: TableMetadata) -> Table {
    let location = format!("{}/metadata/start.metadata.json", metadata.location);
    Table {
        identifier: Identifier::parse(name).unwrap(),
        metadata,
        metadata_location: location,
    }
}

fn storage_table() -> StorageTable {
    StorageTable {
        table: table("db.mv_storage", metadata("s3://bucket/db/mv")),
        sql: "SELECT * FROM db.t1".to_string(),
    }
}

fn file(path: &str) -> (String, DatafileMetadata) {
    (
        path.to_string(),
        DatafileMetadata::Parquet(ParquetMetadata {
            version: 2,
            num_rows: 5,
            total_byte_size: 40,
        }),
    )
}

fn encode(base_tables: &[BaseTable]) -> String {
    let mut records = Vec::new();
    for base_table in base_tables {
        let mut record = serde_json::Map::new();
        record.insert(
            "identifier".to_string(),
            serde_json::Value::String(base_table.identifier.clone()),
        );
        record.insert(
            "snapshot-id".to_string(),
            serde_json::Value::Number(base_table.snapshot_id.into()),
        );
        records.push(serde_json::Value::Object(record));
    }
    serde_json::to_string(&serde_json::Value::Array(records)).unwrap()
}

fn decode(json: &str) -> Result<Vec<BaseTable>, serde_json::Error> {
    let value: serde_json::Value = serde_json::from_str(json)?;
    let mut base_tables = Vec::new();
    for record in value.as_array().unwrap() {
        base_tables.push(BaseTable {
            identifier: record["identifier"].as_str().unwrap().to_string(),
            snapshot_id: record["snapshot-id"].as_i64().unwrap(),
        });
    }
    Ok(base_tables)
}

/// A catalog and an object store in memory, and a relation extractor that
/// knows one query.
struct World {
    pointers: HashMap<String, String>,
    files: HashMap<String, TableMetadata>,
    views: HashMap<String, String>,
    dropped: Vec<Table>,
}

impl World {
    fn new() -> World {
        World {
            pointers: HashMap::new(),
            files: HashMap::new(),
            views: HashMap::new(),
            dropped: Vec::new(),
        }
    }

    fn name(identifier: &Identifier) -> String {
        let mut names: Vec<String> = identifier.namespace().levels().to_vec();
        names.push(identifier.name().to_string());
        names.join(".")
    }

    fn put(&mut self, table: &Table) {
        self.files
            .insert(table.metadata_location.clone(), table.metadata.clone());
        self.pointers
            .insert(World::name(&table.identifier), table.metadata_location.clone());
    }

    fn load(&self, identifier: &Identifier) -> Result<Tabular, IcebergError> {
        let name = World::name(identifier);
        if self.views.contains_key(&name) {
            return Ok(Tabular::MaterializedView(identifier.clone()));
        }
        match self.pointers.get(&name) {
            Some(location) => Ok(Tabular::Table(Table {
                identifier: identifier.clone(),
                metadata: self.files[location].clone(),
                metadata_location: location.clone(),
            })),
            None => Err(IcebergError::External(format!("{} not found", name))),
        }
    }

    fn commit(&mut self, action: CommitAction) -> CommitEvent {
        match action {
            CommitAction::Store { location, metadata } => {
                assert!(!self.files.contains_key(&location));
                self.files.insert(location, metadata);
                CommitEvent::Stored
            }
            CommitAction::UpdateTable {
                identifier,
                metadata_location,
                previous_metadata_location,
            } => {
                let name = World::name(&identifier);
                if self.pointers[&name] != previous_metadata_location {
                    return CommitEvent::Failed(IcebergError::Conflict(name));
                }
                self.pointers.insert(name, metadata_location);
                CommitEvent::Updated(self.load(&identifier).unwrap())
            }
        }
    }

    fn refresh(
        &mut self,
        storage_table: &mut StorageTable,
        files: Vec<(String, DatafileMetadata)>,
        version_id: i64,
        base_tables: Vec<BaseTable>,
    ) -> Result<(), IcebergError> {
        let (mut pending, mut action) =
            storage_table.full_refresh(files, version_id, base_tables, None);
        loop {
            let event = match action {
                RefreshAction::Commit(action) => RefreshEvent::Commit(self.commit(action)),
                RefreshAction::EncodeBaseTables { base_tables } => {
                    RefreshEvent::Encoded(encode(&base_tables))
                }
                RefreshAction::DropTable { table } => {
                    self.dropped.push(table);
                    RefreshEvent::Dropped
                }
            };
            match pending.advance(event) {
                RefreshProgress::Continue(next, wanted) => {
                    pending = next;
                    action = wanted;
                }
                RefreshProgress::Finished => return Ok(()),
                RefreshProgress::Failed(error) => return Err(error),
            }
        }
    }

    fn base_tables(
        &self,
        storage_table: &StorageTable,
    ) -> Result<Vec<(Table, StorageTableState)>, IcebergError> {
        let (mut lookup, mut action) = storage_table.base_tables(None)?;
        loop {
            let event = match action {
                LookupAction::DecodeBaseTables { json } => match decode(&json) {
                    Ok(base_tables) => LookupEvent::Decoded(base_tables),
                    Err(error) => LookupEvent::Failed(IcebergError::JSONSerde(error)),
                },
                LookupAction::FindRelations { sql } => {
                    assert_eq!(sql, "SELECT * FROM db.t1");
                    LookupEvent::Relations(vec!["lake.db.t1".to_string()])
                }
                LookupAction::LoadTable { identifier } => match self.load(&identifier) {
                    Ok(tabular) => LookupEvent::Loaded(tabular),
                    Err(error) => LookupEvent::Failed(error),
                },
                LookupAction::LoadStorageTable { identifier, .. } => {
                    let storage = Identifier::parse(&self.views[&World::name(&identifier)])
                        .unwrap();
                    match self.load(&storage) {
                        Ok(Tabular::Table(table)) => LookupEvent::StorageTable(table),
                        Ok(_) => panic!("a storage table is a table"),
                        Err(error) => LookupEvent::Failed(error),
                    }
                }
            };
            match lookup.advance(event) {
                LookupStep::Continue(next, wanted) => {
                    lookup = next;
                    action = wanted;
                }
                LookupStep::Finished(found) => return Ok(found),
                LookupStep::Failed(error) => return Err(error),
            }
        }
    }
}

#[test]
fn classification() {
    assert_eq!(classify(Some(42), Some(42)), StorageTableState::Fresh);
    assert_eq!(classify(Some(42), Some(57)), StorageTableState::Outdated(42));
    assert_eq!(classify(Some(-1), Some(57)), StorageTableState::Invalid);
    assert_eq!(classify(None, Some(57)), StorageTableState::Invalid);
    assert_eq!(classify(None, None), StorageTableState::Invalid);
    assert_eq!(classify(Some(42), None), StorageTableState::Outdated(42));
    assert_eq!(classify(Some(-1), None), StorageTableState::Invalid);
    assert_eq!(classify(Some(-1), Some(-1)), StorageTableState::Fresh);
    assert_eq!(
        classify(Some(i64::MIN), Some(i64::MAX)),
        StorageTableState::Outdated(i64::MIN)
    );
}

#[test]
fn version_id_is_read_from_the_current_snapshot() {
    let mut storage_table = storage_table();
    assert_eq!(storage_table.version_id(None).unwrap(), None);
    storage_table.table.metadata = with_snapshot(
        metadata("s3://bucket/db/mv"),
        5,
        &[("other", "x"), ("version-id", " -12 ")],
    );
    assert_eq!(storage_table.version_id(None).unwrap(), Some(-12));
    assert_eq!(
        storage_table.version_id(Some("dev".to_string())).unwrap(),
        None
    );
    storage_table.table.metadata.refs = vec![("dev".to_string(), 5)];
    assert_eq!(
        storage_table.version_id(Some("dev".to_string())).unwrap(),
        Some(-12)
    );
}

#[test]
fn version_id_without_the_key_is_none() {
    let mut storage_table = storage_table();
    storage_table.table.metadata =
        with_snapshot(metadata("s3://bucket/db/mv"), 5, &[("other", "x")]);
    assert_eq!(storage_table.version_id(None).unwrap(), None);
}

#[test]
fn version_id_that_is_not_an_integer_is_an_error() {
    for text in ["", "abc", "1.5", "\"1\"", "9223372036854775808", "1 2"] {
        let mut storage_table = storage_table();
        storage_table.table.metadata =
            with_snapshot(metadata("s3://bucket/db/mv"), 5, &[("version-id", text)]);
        match storage_table.version_id(None) {
            Err(IcebergError::JSONSerde(_)) => {}
            other => panic!("expected a decode error for {:?}, got {:?}", text, other),
        }
    }
}

#[test]
fn version_id_with_a_snapshot_id_that_no_snapshot_has_is_an_error() {
    let mut storage_table = storage_table();
    storage_table.table.metadata.current_snapshot_id = Some(9);
    match storage_table.version_id(None) {
        Err(IcebergError::InvalidFormat(what)) => assert_eq!(what, "snapshot"),
        other => panic!("expected a format error, got {:?}", other),
    }
}

#[test]
fn version_read_maps_both_outcomes() {
    assert_eq!(version_read(Ok(3)).unwrap(), Some(3));
    let error = serde_json::from_str::<i64>("x").unwrap_err();
    match version_read(Err(error)) {
        Err(IcebergError::JSONSerde(_)) => {}
        other => panic!("expected a decode error, got {:?}", other),
    }
}

#[test]
fn first_part_of_a_name_is_dropped() {
    assert_eq!(drop_first_part("lake.db.t1"), "db.t1");
    assert_eq!(drop_first_part("db.t1"), "t1");
    assert_eq!(drop_first_part("t1"), "");
    assert_eq!(drop_first_part("a..b"), ".b");
}

#[test]
fn full_refresh_then_staleness_follows_the_base_table() {
    let mut world = World::new();
    let mut base = table("db.t1", with_snapshot(metadata("s3://bucket/db/t1"), 42, &[]));
    world.put(&base);
    let mut storage_table = storage_table();
    world.put(&storage_table.table);
    let old_table = storage_table.table.clone();

    let found = world.base_tables(&storage_table).unwrap();
    assert_eq!(found.len(), 1);
    assert_eq!(found[0].0, base);
    assert_eq!(found[0].1, StorageTableState::Invalid);

    world
        .refresh(
            &mut storage_table,
            vec![file("result.parquet")],
            1,
            vec![BaseTable {
                identifier: "db.t1".to_string(),
                snapshot_id: 42,
            }],
        )
        .unwrap();
    assert_eq!(world.dropped, vec![old_table]);
    assert_eq!(storage_table.sql, "SELECT * FROM db.t1");
    assert_eq!(storage_table.version_id(None).unwrap(), Some(1));
    let metadata = &storage_table.table.metadata;
    assert_eq!(metadata.format_version, FormatVersion::V2);
    assert_eq!(metadata.location, "s3://bucket/db/mv");
    assert_eq!(metadata.current_schema_id, 4);
    assert_eq!(metadata.default_spec_id, 2);
    assert_eq!(metadata.last_sequence_number, 1);
    assert_eq!(metadata.snapshots.len(), 1);
    assert_eq!(metadata.snapshots[0].files, vec![file("result.parquet")]);
    assert_eq!(
        metadata.snapshots[0].summary.entries(),
        &vec![
            ("version-id".to_string(), "1".to_string()),
            (
                "base-tables".to_string(),
                "[{\"identifier\":\"db.t1\",\"snapshot-id\":42}]".to_string()
            ),
        ]
    );
    match world.load(&storage_table.table.identifier).unwrap() {
        Tabular::Table(loaded) => assert_eq!(loaded, storage_table.table),
        other => panic!("expected a table, got {:?}", other),
    }

    let found = world.base_tables(&storage_table).unwrap();
    assert_eq!(found.len(), 1);
    assert_eq!(found[0].0, base);
    assert_eq!(found[0].1, StorageTableState::Fresh);

    base.metadata = with_snapshot(base.metadata, 57, &[]);
    world.put(&base);
    let found = world.base_tables(&storage_table).unwrap();
    assert_eq!(found.len(), 1);
    assert_eq!(found[0].0, base);
    assert_eq!(found[0].1, StorageTableState::Outdated(42));
}

#[test]
fn full_refresh_writes_negative_versions_as_decimals() {
    let mut world = World::new();
    let mut storage_table = storage_table();
    world.put(&storage_table.table);
    world
        .refresh(&mut storage_table, vec![], i64::MIN, vec![])
        .unwrap();
    assert_eq!(
        storage_table.table.metadata.snapshots[0]
            .summary
            .get("version-id"),
        Some(&"-9223372036854775808".to_string())
    );
    assert_eq!(storage_table.version_id(None).unwrap(), Some(i64::MIN));
}

#[test]
fn full_refresh_starts_by_writing_metadata_without_history() {
    let mut storage_table = storage_table();
    storage_table.table.metadata = with_snapshot(metadata("s3://bucket/db/mv"), 5, &[]);
    let before = storage_table.table.clone();
    let (pending, action) = storage_table.full_refresh(vec![], 1, vec![], None);
    assert_eq!(pending.storage_table.table, before);
    match action {
        RefreshAction::Commit(CommitAction::Store { location, metadata }) => {
            assert!(location.starts_with("s3://bucket/db/mv/metadata/3-"));
            assert!(location.ends_with(".metadata.json"));
            assert_eq!(metadata.snapshots.len(), 0);
            assert_eq!(metadata.current_snapshot_id, None);
            assert_eq!(metadata.last_sequence_number, 0);
            assert_eq!(metadata.schemas, before.metadata.schemas);
            assert_eq!(metadata.partition_specs, before.metadata.partition_specs);
            assert_eq!(metadata.location, before.metadata.location);
        }
        other => panic!("expected a store action, got {:?}", other),
    }
}

#[test]
fn full_refresh_that_loses_the_swap_leaves_the_storage_table() {
    let mut storage_table = storage_table();
    let before = self::storage_table();
    let (pending, _) = storage_table.full_refresh(vec![file("a.parquet")], 1, vec![], None);
    let pending = match pending.advance(RefreshEvent::Commit(CommitEvent::Stored)) {
        RefreshProgress::Continue(pending, RefreshAction::Commit(CommitAction::UpdateTable { .. })) => {
            pending
        }
        _ => panic!("expected the swap to be asked for"),
    };
    match pending.advance(RefreshEvent::Commit(CommitEvent::Failed(
        IcebergError::Conflict("moved".to_string()),
    ))) {
        RefreshProgress::Failed(IcebergError::Conflict(what)) => assert_eq!(what, "moved"),
        _ => panic!("expected a conflict"),
    }
    assert_eq!(storage_table, before);
}

#[test]
fn full_refresh_that_gets_no_table_back_fails() {
    let mut storage_table = storage_table();
    let (pending, _) = storage_table.full_refresh(vec![], 1, vec![], None);
    let pending = match pending.advance(RefreshEvent::Commit(CommitEvent::Stored)) {
        RefreshProgress::Continue(pending, _) => pending,
        _ => panic!("expected the swap to be asked for"),
    };
    let view = Tabular::View(Identifier::parse("db.v").unwrap());
    match pending.advance(RefreshEvent::Commit(CommitEvent::Updated(view))) {
        RefreshProgress::Failed(IcebergError::InvalidFormat(what)) => {
            assert_eq!(what, "Entity returnedfrom catalog")
        }
        _ => panic!("expected a format error"),
    }
    assert_eq!(storage_table, self::storage_table());
}

#[test]
fn full_refresh_event_out_of_turn_fails() {
    let mut storage_table = storage_table();
    let (pending, _) = storage_table.full_refresh(vec![], 1, vec![], None);
    match pending.advance(RefreshEvent::Dropped) {
        RefreshProgress::Failed(IcebergError::InvalidFormat(what)) => {
            assert_eq!(what, "unexpected event")
        }
        _ => panic!("expected a format error"),
    }
    assert_eq!(storage_table, self::storage_table());
    match RefreshState::Dropping.advance(RefreshEvent::Encoded("[]".to_string())) {
        iceberg_rust::refresh::RefreshStep::Failed(IcebergError::InvalidFormat(what)) => {
            assert_eq!(what, "unexpected event")
        }
        other => panic!("expected a format error, got {:?}", other),
    }
}

#[test]
fn base_tables_reads_the_record_when_there_is_one() {
    let mut storage_table = storage_table();
    storage_table.table.metadata = with_snapshot(
        metadata("s3://bucket/db/mv"),
        5,
        &[("base-tables", "[1]")],
    );
    let (lookup, action) = storage_table.base_tables(None).unwrap();
    assert_eq!(lookup.phase, LookupPhase::Decoding);
    assert_eq!(
        action,
        LookupAction::DecodeBaseTables {
            json: "[1]".to_string()
        }
    );
    let error = serde_json::from_str::<i64>("x").unwrap_err();
    match lookup.advance(LookupEvent::Failed(IcebergError::JSONSerde(error))) {
        LookupStep::Failed(IcebergError::JSONSerde(_)) => {}
        other => panic!("expected the decode error, got {:?}", other),
    }
}

#[test]
fn base_tables_falls_back_to_the_query() {
    let storage_table = storage_table();
    let (lookup, action) = storage_table.base_tables(Some("dev".to_string())).unwrap();
    assert_eq!(lookup.phase, LookupPhase::Extracting);
    assert_eq!(lookup.branch, Some("dev".to_string()));
    assert_eq!(
        action,
        LookupAction::FindRelations {
            sql: "SELECT * FROM db.t1".to_string()
        }
    );
}

#[test]
fn base_tables_keeps_the_order_and_strips_the_pointer_prefix() {
    let mut world = World::new();
    let t1 = table("db.t1", with_snapshot(metadata("s3://bucket/db/t1"), 42, &[]));
    let t2 = table("db.t2", with_snapshot(metadata("s3://bucket/db/t2"), 8, &[]));
    let t3 = table("db.t3", metadata("s3://bucket/db/t3"));
    world.put(&t1);
    world.put(&t2);
    world.put(&t3);
    let mut storage_table = storage_table();
    let record = encode(&[
        BaseTable {
            identifier: "identifier:db.t2".to_string(),
            snapshot_id: 8,
        },
        BaseTable {
            identifier: "identifier:identifier:db.t1".to_string(),
            snapshot_id: -1,
        },
        BaseTable {
            identifier: "db.t3".to_string(),
            snapshot_id: 3,
        },
    ]);
    storage_table.table.metadata = with_snapshot(
        metadata("s3://bucket/db/mv"),
        5,
        &[("base-tables", &record)],
    );
    let found = world.base_tables(&storage_table).unwrap();
    assert_eq!(
        found,
        vec![
            (t2, StorageTableState::Fresh),
            (t1, StorageTableState::Invalid),
            (t3, StorageTableState::Outdated(3)),
        ]
    );
}

#[test]
fn base_tables_fails_as_soon_as_one_cannot_be_loaded() {
    let mut world = World::new();
    let t1 = table("db.t1", with_snapshot(metadata("s3://bucket/db/t1"), 42, &[]));
    world.put(&t1);
    let mut storage_table = storage_table();
    let record = encode(&[
        BaseTable {
            identifier: "db.t1".to_string(),
            snapshot_id: 42,
        },
        BaseTable {
            identifier: "db.gone".to_string(),
            snapshot_id: 1,
        },
    ]);
    storage_table.table.metadata = with_snapshot(
        metadata("s3://bucket/db/mv"),
        5,
        &[("base-tables", &record)],
    );
    match world.base_tables(&storage_table) {
        Err(IcebergError::External(what)) => assert_eq!(what, "db.gone not found"),
        other => panic!("expected the failure of the load, got {:?}", other),
    }
}

#[test]
fn base_tables_rejects_a_pointer_that_is_no_identifier() {
    let lookup = BaseTablesLookup {
        branch: None,
        dependencies: vec![],
        resolved: vec![],
        phase: LookupPhase::Decoding,
    };
    match lookup.advance(LookupEvent::Decoded(vec![BaseTable {
        identifier: "db.".to_string(),
        snapshot_id: 1,
    }])) {
        LookupStep::Failed(IcebergError::InvalidFormat(what)) => assert_eq!(what, "table name"),
        other => panic!("expected a format error, got {:?}", other),
    }
}

#[test]
fn base_tables_resolves_a_materialized_view_to_its_storage_table() {
    let mut world = World::new();
    let storage = table(
        "db.inner_storage",
        with_snapshot(metadata("s3://bucket/db/inner"), 11, &[]),
    );
    world.put(&storage);
    world
        .views
        .insert("db.inner".to_string(), "db.inner_storage".to_string());
    let mut storage_table = storage_table();
    let record = encode(&[BaseTable {
        identifier: "db.inner".to_string(),
        snapshot_id: 10,
    }]);
    storage_table.table.metadata = with_snapshot(
        metadata("s3://bucket/db/mv"),
        5,
        &[("base-tables", &record)],
    );
    let found = world.base_tables(&storage_table).unwrap();
    assert_eq!(found, vec![(storage, StorageTableState::Outdated(10))]);
}

#[test]
fn base_tables_rejects_a_plain_view() {
    let lookup = BaseTablesLookup {
        branch: None,
        dependencies: vec![("db.v".to_string(), Some(1))],
        resolved: vec![],
        phase: LookupPhase::Loading,
    };
    let view = Tabular::View(Identifier::parse("db.v").unwrap());
    match lookup.advance(LookupEvent::Loaded(view)) {
        LookupStep::Failed(IcebergError::InvalidFormat(what)) => {
            assert_eq!(what, "storage table")
        }
        other => panic!("expected a format error, got {:?}", other),
    }
}

#[test]
fn base_tables_event_out_of_turn_fails() {
    let lookup = BaseTablesLookup {
        branch: None,
        dependencies: vec![],
        resolved: vec![],
        phase: LookupPhase::Extracting,
    };
    match lookup.advance(LookupEvent::Decoded(vec![])) {
        LookupStep::Failed(IcebergError::InvalidFormat(what)) => {
            assert_eq!(what, "unexpected event")
        }
        other => panic!("expected a format error, got {:?}", other),
    }
}

#[test]
fn base_tables_of_a_view_without_base_tables_is_empty() {
    let lookup = BaseTablesLookup {
        branch: None,
        dependencies: vec![],
        resolved: vec![],
        phase: LookupPhase::Extracting,
    };
    match lookup.advance(LookupEvent::Relations(vec![])) {
        LookupStep::Finished(found) => assert!(found.is_empty()),
        other => panic!("expected the end of the check, got {:?}", other),
    }
}

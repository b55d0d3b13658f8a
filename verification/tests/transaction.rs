use std::collections::HashMap;

use iceberg_rust::error::IcebergError;
use iceberg_rust::file_format::{DatafileMetadata, ParquetMetadata};
use iceberg_rust::identifier::Identifier;
use iceberg_rust::metadata::{FormatVersion, SchemaV2, StructField, TableMetadata};
use iceberg_rust::operation::Operation;
use iceberg_rust::partition::{PartitionField, PartitionSpec, Transform};
use iceberg_rust::table::{Table, Tabular};
use iceberg_rust::transaction::{
    CommitAction, CommitEvent, CommitProgress, StagedCommit, TableTransaction,
};

fn schema(id: i32) -> SchemaV2 {
    SchemaV2 {
        schema_id: id,
        fields: vec![StructField {
            id: 1,
            name: "id".to_string(),
            required: true,
            field_type: "long".to_string(),
        }],
    }
}

fn spec(id: i32) -> PartitionSpec {
    PartitionSpec {
        spec_id: id,
        fields: vec![PartitionField {
            source_id: 1,
            field_id: 1000,
            name: "id_bucket".to_string(),
            transform: Transform::Bucket(4),
        }],
    }
}

fn metadata() -> TableMetadata {
    TableMetadata {
        format_version: FormatVersion::V2,
        location: "s3://bucket/db/t1".to_string(),
        last_sequence_number: 7,
        schemas: vec![schema(0)],
        current_schema_id: 0,
        partition_specs: vec![spec(0), spec(1)],
        default_spec_id: 0,
        snapshots: vec![],
        current_snapshot_id: None,
        refs: vec![],
    }
}

fn table() -> Table {
    Table {
        identifier: Identifier::parse("db.t1").unwrap(),
        metadata: metadata(),
        metadata_location: "s3://bucket/db/t1/metadata/7-start.metadata.json".to_string(),
    }
}

fn file(path: &str, rows: i64) -> (String, DatafileMetadata) {
    (
        path.to_string(),
        DatafileMetadata::Parquet(ParquetMetadata {
            version: 2,
            num_rows: rows,
            total_byte_size: rows * 8,
        }),
    )
}

/// A catalog and an object store in memory. The catalog moves a pointer
/// only from the location it currently holds.
struct Catalog {
    pointers: HashMap<String, String>,
    files: HashMap<String, TableMetadata>,
}

impl Catalog {
    fn holding(table: &Table) -> Catalog {
        let mut catalog = Catalog {
            pointers: HashMap::new(),
            files: HashMap::new(),
        };
        catalog
            .files
            .insert(table.metadata_location.clone(), table.metadata.clone());
        catalog
            .pointers
            .insert("db.t1".to_string(), table.metadata_location.clone());
        catalog
    }

    fn load(&self, identifier: &Identifier) -> Table {
        let location = self.pointers["db.t1"].clone();
        Table {
            identifier: identifier.clone(),
            metadata: self.files[&location].clone(),
            metadata_location: location,
        }
    }

    fn perform(&mut self, action: CommitAction) -> CommitEvent {
        match action {
            CommitAction::Store { location, metadata } => {
                if self.files.contains_key(&location) {
                    return CommitEvent::Failed(IcebergError::External("exists".to_string()));
                }
                self.files.insert(location, metadata);
                CommitEvent::Stored
            }
            CommitAction::UpdateTable {
                identifier,
                metadata_location,
                previous_metadata_location,
            } => {
                if self.pointers["db.t1"] != previous_metadata_location {
                    return CommitEvent::Failed(IcebergError::Conflict(
                        "the table has moved on".to_string(),
                    ));
                }
                self.pointers.insert("db.t1".to_string(), metadata_location);
                CommitEvent::Updated(Tabular::Table(self.load(&identifier)))
            }
        }
    }

    fn commit(&mut self, transaction: TableTransaction<'_>) -> Result<(), IcebergError> {
        let (mut pending, mut action) = transaction.commit()?;
        loop {
            let event = self.perform(action);
            match pending.advance(event) {
                CommitProgress::Continue(next, wanted) => {
                    pending = next;
                    action = wanted;
                }
                CommitProgress::Committed => return Ok(()),
                CommitProgress::Failed(error) => return Err(error),
            }
        }
    }
}

#[test]
fn new_transaction_is_empty() {
    let mut table = table();
    let transaction = TableTransaction::new(&mut table);
    assert!(transaction.operations.is_empty());
    assert!(transaction.branch.is_none());
    assert_eq!(*transaction.table, self::table());
}

#[test]
fn operations_are_queued_in_order() {
    let mut table = table();
    let transaction = TableTransaction::new(&mut table)
        .update_schema(schema(3))
        .update_spec(1)
        .append(vec![file("a.parquet", 10)])
        .update_properties(vec![("k".to_string(), "v".to_string())]);
    assert_eq!(
        transaction.operations,
        vec![
            Operation::UpdateSchema(schema(3)),
            Operation::UpdateSpec(1),
            Operation::NewAppend {
                paths: vec![file("a.parquet", 10)]
            },
            Operation::UpdateProperties(vec![("k".to_string(), "v".to_string())]),
        ]
    );
}

#[test]
fn commit_stages_the_next_version_and_leaves_the_table() {
    let mut table = table();
    let before = self::table();
    let (pending, action) = TableTransaction::new(&mut table)
        .update_schema(schema(3))
        .update_spec(1)
        .append(vec![file("a.parquet", 10), file("b.parquet", 20)])
        .update_properties(vec![("owner".to_string(), "ann".to_string())])
        .commit()
        .unwrap();
    assert_eq!(*pending.table, before);
    let (location, staged) = match action {
        CommitAction::Store { location, metadata } => (location, metadata),
        other => panic!("expected a store action, got {:?}", other),
    };
    assert_eq!(staged.last_sequence_number, 8);
    assert_eq!(staged.current_schema_id, 3);
    assert_eq!(staged.schemas, vec![schema(0), schema(3)]);
    assert_eq!(staged.default_spec_id, 1);
    assert_eq!(staged.current_snapshot_id, Some(1));
    assert_eq!(staged.snapshots.len(), 1);
    assert_eq!(staged.snapshots[0].snapshot_id, 1);
    assert_eq!(staged.snapshots[0].sequence_number, 8);
    assert_eq!(
        staged.snapshots[0].files,
        vec![file("a.parquet", 10), file("b.parquet", 20)]
    );
    assert_eq!(
        staged.snapshots[0].summary.entries(),
        &vec![("owner".to_string(), "ann".to_string())]
    );
    let prefix = "s3://bucket/db/t1/metadata/8-";
    let suffix = ".metadata.json";
    assert!(location.starts_with(prefix));
    assert!(location.ends_with(suffix));
    let token = &location[prefix.len()..location.len() - suffix.len()];
    assert_eq!(token.len(), 36);
    for (i, c) in token.chars().enumerate() {
        if i == 8 || i == 13 || i == 18 || i == 23 {
            assert_eq!(c, '-');
        } else {
            assert!(c.is_ascii_digit() || ('a'..='f').contains(&c));
        }
    }
    match &pending.staged {
        StagedCommit::Storing {
            identifier,
            metadata_location,
            previous_metadata_location,
        } => {
            assert_eq!(identifier, &before.identifier);
            assert_eq!(metadata_location, &location);
            assert_eq!(previous_metadata_location, &before.metadata_location);
        }
        other => panic!("expected the storing state, got {:?}", other),
    }
}

#[test]
fn two_commits_pick_different_locations() {
    let mut first = table();
    let mut second = table();
    let (_, a) = TableTransaction::new(&mut first).commit().unwrap();
    let (_, b) = TableTransaction::new(&mut second).commit().unwrap();
    match (a, b) {
        (CommitAction::Store { location: a, .. }, CommitAction::Store { location: b, .. }) => {
            assert_ne!(a, b)
        }
        other => panic!("expected two store actions, got {:?}", other),
    }
}

#[test]
fn sequence_number_goes_up_by_one_whatever_is_queued() {
    let mut catalog = Catalog::holding(&table());
    let mut table = table();
    catalog.commit(TableTransaction::new(&mut table)).unwrap();
    assert_eq!(table.metadata.last_sequence_number, 8);
    catalog
        .commit(
            TableTransaction::new(&mut table)
                .append(vec![file("a.parquet", 1)])
                .append(vec![file("b.parquet", 2)])
                .update_spec(1)
                .update_properties(vec![("k".to_string(), "v".to_string())]),
        )
        .unwrap();
    assert_eq!(table.metadata.last_sequence_number, 9);
    assert_eq!(table.metadata.snapshots.len(), 1);
    assert_eq!(
        table.metadata.snapshots[0].files,
        vec![file("a.parquet", 1), file("b.parquet", 2)]
    );
}

#[test]
fn sequence_number_at_its_limit_ends_the_commit() {
    let mut table = table();
    table.metadata.last_sequence_number = i64::MAX;
    match TableTransaction::new(&mut table).commit() {
        Err(IcebergError::InvalidFormat(what)) => assert_eq!(what, "sequence number"),
        _ => panic!("expected a format error"),
    }
}

#[test]
fn update_properties_overwrites_a_key() {
    let mut catalog = Catalog::holding(&table());
    let mut table = table();
    catalog
        .commit(
            TableTransaction::new(&mut table)
                .append(vec![])
                .update_properties(vec![
                    ("a".to_string(), "1".to_string()),
                    ("b".to_string(), "2".to_string()),
                ])
                .update_properties(vec![("a".to_string(), "3".to_string())]),
        )
        .unwrap();
    assert_eq!(
        table.metadata.snapshots[0].summary.entries(),
        &vec![
            ("a".to_string(), "3".to_string()),
            ("b".to_string(), "2".to_string())
        ]
    );
    catalog
        .commit(
            TableTransaction::new(&mut table)
                .update_properties(vec![("b".to_string(), "4".to_string())]),
        )
        .unwrap();
    assert_eq!(
        table.metadata.snapshots[0].summary.entries(),
        &vec![
            ("a".to_string(), "3".to_string()),
            ("b".to_string(), "4".to_string())
        ]
    );
}

#[test]
fn update_properties_without_a_snapshot_ends_the_commit() {
    let mut table = table();
    match TableTransaction::new(&mut table)
        .update_properties(vec![("a".to_string(), "1".to_string())])
        .commit()
    {
        Err(IcebergError::InvalidFormat(what)) => assert_eq!(what, "snapshot"),
        _ => panic!("expected a format error"),
    }
}

#[test]
fn unknown_spec_id_fails_before_any_write() {
    let mut catalog = Catalog::holding(&table());
    let mut table = table();
    let result = catalog.commit(
        TableTransaction::new(&mut table)
            .append(vec![file("a.parquet", 1)])
            .update_spec(9)
            .update_schema(schema(5)),
    );
    match result {
        Err(IcebergError::InvalidFormat(what)) => assert_eq!(what, "partition spec id"),
        other => panic!("expected a format error, got {:?}", other),
    }
    assert_eq!(catalog.files.len(), 1);
    assert_eq!(table, self::table());
}

#[test]
fn failed_swap_leaves_the_table_unchanged() {
    let mut table = table();
    let before = self::table();
    let (pending, _) = TableTransaction::new(&mut table)
        .append(vec![file("a.parquet", 1)])
        .commit()
        .unwrap();
    let pending = match pending.advance(CommitEvent::Stored) {
        CommitProgress::Continue(pending, CommitAction::UpdateTable { .. }) => pending,
        _ => panic!("expected the swap to be asked for"),
    };
    match pending.advance(CommitEvent::Failed(IcebergError::Conflict("moved".to_string()))) {
        CommitProgress::Failed(IcebergError::Conflict(what)) => assert_eq!(what, "moved"),
        _ => panic!("expected a conflict"),
    }
    assert_eq!(table, before);
}

#[test]
fn failed_write_ends_the_commit_without_a_swap() {
    let mut table = table();
    let (pending, _) = TableTransaction::new(&mut table).commit().unwrap();
    match pending.advance(CommitEvent::Failed(IcebergError::External("disk".to_string()))) {
        CommitProgress::Failed(IcebergError::External(what)) => assert_eq!(what, "disk"),
        _ => panic!("expected the failure of the store"),
    }
    assert_eq!(table, self::table());
}

#[test]
fn swap_that_returns_no_table_fails() {
    let mut table = table();
    let (pending, _) = TableTransaction::new(&mut table).commit().unwrap();
    let pending = match pending.advance(CommitEvent::Stored) {
        CommitProgress::Continue(pending, _) => pending,
        _ => panic!("expected the swap to be asked for"),
    };
    let view = Tabular::View(Identifier::parse("db.v").unwrap());
    match pending.advance(CommitEvent::Updated(view)) {
        CommitProgress::Failed(IcebergError::InvalidFormat(what)) => assert_eq!(
            what,
            "Updating the table for the transaction didn't return a table."
        ),
        _ => panic!("expected a format error"),
    }
    assert_eq!(table, self::table());
}

#[test]
fn event_out_of_turn_fails() {
    let mut table = table();
    let (pending, _) = TableTransaction::new(&mut table).commit().unwrap();
    match pending.advance(CommitEvent::Updated(Tabular::Table(self::table()))) {
        CommitProgress::Failed(IcebergError::InvalidFormat(what)) => {
            assert_eq!(what, "unexpected event")
        }
        _ => panic!("expected a format error"),
    }
    let (pending, _) = TableTransaction::new(&mut table).commit().unwrap();
    let pending = match pending.advance(CommitEvent::Stored) {
        CommitProgress::Continue(pending, _) => pending,
        _ => panic!("expected the swap to be asked for"),
    };
    match pending.advance(CommitEvent::Stored) {
        CommitProgress::Failed(IcebergError::InvalidFormat(what)) => {
            assert_eq!(what, "unexpected event")
        }
        _ => panic!("expected a format error"),
    }
    assert_eq!(table, self::table());
}

#[test]
fn of_two_concurrent_commits_one_wins() {
    let mut catalog = Catalog::holding(&table());
    let mut first = catalog.load(&Identifier::parse("db.t1").unwrap());
    let mut second = catalog.load(&Identifier::parse("db.t1").unwrap());
    let (first_pending, first_action) = TableTransaction::new(&mut first)
        .append(vec![file("first.parquet", 1)])
        .commit()
        .unwrap();
    let (second_pending, second_action) = TableTransaction::new(&mut second)
        .append(vec![file("second.parquet", 2)])
        .commit()
        .unwrap();
    let (first_pending, first_action) = match first_pending.advance(catalog.perform(first_action))
    {
        CommitProgress::Continue(pending, action) => (pending, action),
        _ => panic!("expected the swap to be asked for"),
    };
    let (second_pending, second_action) =
        match second_pending.advance(catalog.perform(second_action)) {
            CommitProgress::Continue(pending, action) => (pending, action),
            _ => panic!("expected the swap to be asked for"),
        };
    match second_pending.advance(catalog.perform(second_action)) {
        CommitProgress::Committed => {}
        _ => panic!("expected the first swap to win"),
    }
    match first_pending.advance(catalog.perform(first_action)) {
        CommitProgress::Failed(IcebergError::Conflict(_)) => {}
        _ => panic!("expected the second swap to lose"),
    }
    assert_eq!(first, table());
    let loaded = catalog.load(&Identifier::parse("db.t1").unwrap());
    assert_eq!(loaded, second);
    assert_eq!(loaded.metadata.snapshots.len(), 1);
    assert_eq!(
        loaded.metadata.snapshots[0].files,
        vec![file("second.parquet", 2)]
    );
    assert_eq!(loaded.metadata.last_sequence_number, 8);
}

#[test]
fn commit_on_a_branch_moves_the_branch_only() {
    let mut catalog = Catalog::holding(&table());
    let mut table = table();
    catalog
        .commit(TableTransaction::new(&mut table).append(vec![file("main.parquet", 1)]))
        .unwrap();
    let mut transaction = TableTransaction::new(&mut table).append(vec![file("dev.parquet", 2)]);
    transaction.branch = Some("dev".to_string());
    catalog.commit(transaction).unwrap();
    assert_eq!(table.metadata.current_snapshot_id, Some(1));
    assert_eq!(table.metadata.refs, vec![("dev".to_string(), 2)]);
    assert_eq!(table.metadata.snapshots.len(), 2);
    assert_eq!(
        table.metadata.snapshots[1].files,
        vec![file("dev.parquet", 2)]
    );
    assert_eq!(
        table.metadata.snapshots[0].files,
        vec![file("main.parquet", 1)]
    );
}

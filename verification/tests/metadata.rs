use std::collections::HashMap;

use iceberg_rust::error::IcebergError;
use iceberg_rust::file_format::{DatafileMetadata, ParquetMetadata};
use iceberg_rust::get_namespace_response::GetNamespaceResponse;
use iceberg_rust::metadata::{FormatVersion, SchemaV2, Snapshot, TableMetadata};
use iceberg_rust::operation::{any_append, stage, Operation};
use iceberg_rust::partition::{PartitionSpec, Transform};
use iceberg_rust::sort::{NullOrder, SortDirection, SortField, SortOrder};
use iceberg_rust::summary::Summary;

fn metadata() -> TableMetadata {
    TableMetadata {
        format_version: FormatVersion::V1,
        location: "file:///t".to_string(),
        last_sequence_number: 0,
        schemas: vec![SchemaV2 {
            schema_id: 1,
            fields: vec![],
        }],
        current_schema_id: 1,
        partition_specs: vec![PartitionSpec {
            spec_id: 0,
            fields: vec![],
        }],
        default_spec_id: 0,
        snapshots: vec![],
        current_snapshot_id: None,
        refs: vec![],
    }
}

fn snapshot(id: i64) -> Snapshot {
    Snapshot {
        snapshot_id: id,
        sequence_number: 0,
        summary: Summary::new(),
        files: vec![],
    }
}

fn format_error<T: std::fmt::Debug>(result: Result<T, IcebergError>) -> String {
    match result {
        Err(IcebergError::InvalidFormat(what)) => what,
        other => panic!("expected a format error, got {:?}", other),
    }
}

#[test]
fn summary_keeps_one_entry_per_key() {
    let mut summary = Summary::new();
    assert_eq!(summary.get("a"), None);
    summary.insert("a".to_string(), "1".to_string());
    summary.insert("b".to_string(), "2".to_string());
    summary.insert("a".to_string(), "3".to_string());
    assert_eq!(summary.get("a"), Some(&"3".to_string()));
    assert_eq!(summary.get("b"), Some(&"2".to_string()));
    assert_eq!(summary.get("c"), None);
    assert_eq!(
        summary.entries(),
        &vec![
            ("a".to_string(), "3".to_string()),
            ("b".to_string(), "2".to_string())
        ]
    );
    assert_eq!(summary.clone(), summary);
}

#[test]
fn current_snapshot_follows_the_branch() {
    let mut metadata = metadata();
    let main: Option<String> = None;
    let dev = Some("dev".to_string());
    assert_eq!(metadata.current_snapshot(&main).unwrap(), None);
    metadata.snapshots = vec![snapshot(4), snapshot(9)];
    metadata.current_snapshot_id = Some(9);
    metadata.refs = vec![("dev".to_string(), 4)];
    assert_eq!(metadata.current_snapshot(&main).unwrap(), Some(&snapshot(9)));
    assert_eq!(metadata.current_snapshot(&dev).unwrap(), Some(&snapshot(4)));
    assert_eq!(
        metadata
            .current_snapshot(&Some("other".to_string()))
            .unwrap(),
        None
    );
    assert_eq!(metadata.snapshot_position(4), 0);
    assert_eq!(metadata.snapshot_position(5), 2);
    metadata.refs = vec![("dev".to_string(), 5)];
    assert_eq!(format_error(metadata.current_snapshot(&dev)), "snapshot");
}

#[test]
fn new_snapshot_gets_an_id_above_all_others() {
    let mut metadata = metadata();
    metadata.last_sequence_number = 3;
    metadata.snapshots = vec![snapshot(40), snapshot(-7), snapshot(12)];
    assert_eq!(metadata.greatest_snapshot_id(), 40);
    metadata.new_snapshot(&None).unwrap();
    assert_eq!(metadata.current_snapshot_id, Some(41));
    assert_eq!(metadata.snapshots[3].snapshot_id, 41);
    assert_eq!(metadata.snapshots[3].sequence_number, 3);
    metadata.snapshots.push(snapshot(i64::MAX));
    let before = metadata.clone();
    assert_eq!(format_error(metadata.new_snapshot(&None)), "snapshot id");
    assert_eq!(metadata, before);
}

#[test]
fn schema_of_a_known_id_is_replaced_in_place() {
    let mut metadata = metadata();
    metadata.set_current_schema(SchemaV2 {
        schema_id: 2,
        fields: vec![],
    });
    let replacement = SchemaV2 {
        schema_id: 1,
        fields: vec![iceberg_rust::metadata::StructField {
            id: 1,
            name: "x".to_string(),
            required: false,
            field_type: "int".to_string(),
        }],
    };
    metadata.set_current_schema(replacement.clone());
    assert_eq!(metadata.current_schema_id, 1);
    assert_eq!(metadata.schemas.len(), 2);
    assert_eq!(metadata.schemas[0], replacement);
}

#[test]
fn default_spec_must_exist() {
    let mut metadata = metadata();
    assert_eq!(
        format_error(metadata.set_default_spec(3)),
        "partition spec id"
    );
    assert_eq!(metadata.default_spec_id, 0);
    metadata.partition_specs.push(PartitionSpec {
        spec_id: 3,
        fields: vec![],
    });
    metadata.set_default_spec(3).unwrap();
    assert_eq!(metadata.default_spec_id, 3);
}

#[test]
fn stage_applies_operations_in_order_and_stops_at_the_first_failure() {
    let metadata = metadata();
    let file = (
        "a.parquet".to_string(),
        DatafileMetadata::Parquet(ParquetMetadata {
            version: 1,
            num_rows: 2,
            total_byte_size: 3,
        }),
    );
    let staged = stage(
        &metadata,
        vec![
            Operation::UpdateProperties(vec![("k".to_string(), "early".to_string())]),
            Operation::NewAppend {
                paths: vec![file.clone()],
            },
            Operation::UpdateProperties(vec![("k".to_string(), "late".to_string())]),
        ],
        &None,
    )
    .unwrap();
    assert_eq!(staged.last_sequence_number, 1);
    assert_eq!(staged.snapshots.len(), 1);
    assert_eq!(staged.snapshots[0].files, vec![file]);
    assert_eq!(
        staged.snapshots[0].summary.entries(),
        &vec![("k".to_string(), "late".to_string())]
    );
    assert_eq!(
        format_error(stage(
            &metadata,
            vec![
                Operation::UpdateSpec(5),
                Operation::UpdateProperties(vec![]),
            ],
            &None
        )),
        "partition spec id"
    );
    assert_eq!(
        format_error(stage(
            &metadata,
            vec![
                Operation::UpdateProperties(vec![]),
                Operation::UpdateSpec(5),
            ],
            &None
        )),
        "snapshot"
    );
    assert!(!any_append(&vec![Operation::UpdateSpec(0)]));
    assert!(any_append(&vec![
        Operation::UpdateSpec(0),
        Operation::NewAppend { paths: vec![] }
    ]));
}

#[test]
fn start_over_keeps_shape_and_drops_history() {
    let mut metadata = metadata();
    metadata.last_sequence_number = 9;
    metadata.snapshots = vec![snapshot(1)];
    metadata.current_snapshot_id = Some(1);
    metadata.refs = vec![("dev".to_string(), 1)];
    let fresh = metadata.start_over();
    assert_eq!(fresh, self::metadata());
}

#[test]
fn namespace_response_has_no_properties_at_first() {
    let response = GetNamespaceResponse::new(vec!["a".to_string(), "b".to_string()]);
    assert_eq!(response.namespace, vec!["a".to_string(), "b".to_string()]);
    assert_eq!(response.properties, None);
    assert_eq!(GetNamespaceResponse::default().namespace, Vec::<String>::new());
    let mut with_properties = response.clone();
    with_properties.properties = Some(HashMap::new());
    assert_ne!(with_properties, response);
    assert_eq!(with_properties.clone(), with_properties);
}

fn read_sort_field(value: &serde_json::Value) -> SortField {
    SortField {
        source_id: value["source-id"].as_i64().unwrap() as i32,
        transform: Transform::parse(value["transform"].as_str().unwrap()).unwrap(),
        direction: SortDirection::parse(value["direction"].as_str().unwrap()).unwrap(),
        null_order: NullOrder::parse(value["null-order"].as_str().unwrap()).unwrap(),
    }
}

fn read_sort_order(value: &serde_json::Value) -> SortOrder {
    SortOrder {
        order_id: value["order-id"].as_i64().unwrap() as i32,
        fields: value["fields"]
            .as_array()
            .unwrap()
            .iter()
            .map(read_sort_field)
            .collect(),
    }
}

#[test]
fn sort_field() {
    let sort_field = r#"
        {
            "transform": "bucket[4]",
            "source-id": 3,
            "direction": "desc",
            "null-order": "nulls-last"
         }
        "#;

    let field: SortField = read_sort_field(&serde_json::from_str(sort_field).unwrap());
    assert_eq!(Transform::Bucket(4), field.transform);
    assert_eq!(3, field.source_id);
    assert_eq!(SortDirection::Descending, field.direction);
    assert_eq!(NullOrder::Last, field.null_order);
}

#[test]
fn sort_order() {
    let sort_order = r#"
        {
        "order-id": 1,
        "fields": [ {
            "transform": "identity",
            "source-id": 2,
            "direction": "asc",
            "null-order": "nulls-first"
         }, {
            "transform": "bucket[4]",
            "source-id": 3,
            "direction": "desc",
            "null-order": "nulls-last"
         } ]
        }
        "#;

    let order: SortOrder = read_sort_order(&serde_json::from_str(sort_order).unwrap());
    assert_eq!(Transform::Identity, order.fields[0].transform);
    assert_eq!(2, order.fields[0].source_id);
    assert_eq!(SortDirection::Ascending, order.fields[0].direction);
    assert_eq!(NullOrder::First, order.fields[0].null_order);

    assert_eq!(Transform::Bucket(4), order.fields[1].transform);
    assert_eq!(3, order.fields[1].source_id);
    assert_eq!(SortDirection::Descending, order.fields[1].direction);
    assert_eq!(NullOrder::Last, order.fields[1].null_order);
}

#[test]
fn transform_text_forms() {
    let forms = [
        (Transform::Identity, "identity"),
        (Transform::Bucket(4), "bucket[4]"),
        (Transform::Bucket(0), "bucket[0]"),
        (Transform::Bucket(u32::MAX), "bucket[4294967295]"),
        (Transform::Truncate(10), "truncate[10]"),
        (Transform::Year, "year"),
        (Transform::Month, "month"),
        (Transform::Day, "day"),
        (Transform::Hour, "hour"),
        (Transform::Void, "void"),
    ];
    for (transform, text) in forms {
        assert_eq!(transform.to_string(), text);
        assert_eq!(Transform::parse(text), Some(transform));
    }
}

#[test]
fn transform_text_that_is_no_form_reads_as_nothing() {
    for text in [
        "",
        "Identity",
        "bucket",
        "bucket[]",
        "bucket[04]",
        "bucket[+4]",
        "bucket[-4]",
        "bucket[4",
        "bucket4]",
        "bucket[4]]",
        "bucket[4294967296]",
        "bucket[99999999999999999999999]",
        "bucket(4)",
        "truncate[ 4]",
        "truncate[4] ",
        "buckets[4]",
        "years",
    ] {
        assert_eq!(Transform::parse(text), None, "{:?}", text);
    }
}

#[test]
fn sort_direction_and_null_order_text_forms() {
    assert_eq!(SortDirection::Ascending.to_string(), "asc");
    assert_eq!(SortDirection::Descending.to_string(), "desc");
    assert_eq!(SortDirection::parse("asc"), Some(SortDirection::Ascending));
    assert_eq!(SortDirection::parse("desc"), Some(SortDirection::Descending));
    assert_eq!(SortDirection::parse("ASC"), None);
    assert_eq!(SortDirection::parse(""), None);
    assert_eq!(NullOrder::First.to_string(), "nulls-first");
    assert_eq!(NullOrder::Last.to_string(), "nulls-last");
    assert_eq!(NullOrder::parse("nulls-first"), Some(NullOrder::First));
    assert_eq!(NullOrder::parse("nulls-last"), Some(NullOrder::Last));
    assert_eq!(NullOrder::parse("first"), None);
}

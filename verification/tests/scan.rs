use cassandra_server::cells::{Cell, Row};
use cassandra_server::filtering::{FilterRelation, RelationOperand};
use cassandra_server::relations::RelationOp;
use cassandra_server::scan::{scan_selected_rows, ScanFilter, ScannedPartition};
use cassandra_server::types::{ColumnMetadata, CqlType};

fn names(v: &[&str]) -> Vec<String> {
    v.iter().map(|s| s.to_string()).collect()
}

fn row(bucket: i32, name: &str) -> Row {
    Row {
        clustering_key: bucket.to_be_bytes().to_vec(),
        cells: vec![Cell { column: "name".to_string(), value: Some(name.as_bytes().to_vec()), timestamp: 1, ttl: 0, live: true }],
    }
}

fn partition(id: i32, rows: Vec<Row>) -> ScannedPartition {
    ScannedPartition { partition_key: id.to_be_bytes().to_vec(), token: i64::from(id), rows, static_row: None }
}

fn events() -> Vec<ScannedPartition> {
    vec![
        partition(1, vec![row(-1, "a"), row(0, "b"), row(1, "c")]),
        partition(2, vec![]),
        partition(3, vec![row(-5, "d"), row(7, "e")]),
    ]
}

fn filter_by(relations: Vec<FilterRelation>) -> ScanFilter {
    ScanFilter {
        relations,
        cols: vec![
            ColumnMetadata { name: "id".to_string(), column_type: CqlType::Int },
            ColumnMetadata { name: "bucket".to_string(), column_type: CqlType::Int },
            ColumnMetadata { name: "name".to_string(), column_type: CqlType::Varchar },
        ],
        pk_names: names(&["id"]),
        ck_names: names(&["bucket"]),
        static_col_names: vec![],
    }
}

fn bucket_below(v: i32) -> FilterRelation {
    FilterRelation {
        column: "bucket".to_string(),
        op: RelationOp::Lt,
        operand: RelationOperand::Values(vec![Some(v.to_be_bytes().to_vec())]),
    }
}

#[test]
fn scan_keeps_matching_rows_in_partition_order() {
    let parts = events();
    let rows = scan_selected_rows(&parts, &filter_by(vec![bucket_below(1)]), None);
    assert_eq!(rows, vec![(0, 0), (0, 1), (2, 0)]);
    let all = scan_selected_rows(&parts, &filter_by(vec![]), None);
    assert_eq!(all, vec![(0, 0), (0, 1), (0, 2), (2, 0), (2, 1)]);
}

#[test]
fn scan_stops_once_it_holds_the_limit() {
    let parts = events();
    let f = filter_by(vec![]);
    assert_eq!(scan_selected_rows(&parts, &f, Some(2)), vec![(0, 0), (0, 1)]);
    assert_eq!(scan_selected_rows(&parts, &f, Some(4)), vec![(0, 0), (0, 1), (0, 2), (2, 0)]);
    assert_eq!(scan_selected_rows(&parts, &f, Some(0)), vec![(0, 0)]);
    assert_eq!(scan_selected_rows(&parts, &f, Some(10)).len(), 5);
}

#[test]
fn scan_of_negative_range_uses_signed_order() {
    let parts = events();
    let rows = scan_selected_rows(&parts, &filter_by(vec![bucket_below(0)]), None);
    assert_eq!(rows, vec![(0, 0), (2, 0)]);
}

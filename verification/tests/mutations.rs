use cassandra_server::mutations::{
    build_delete_mutation, build_delete_mutation_at, build_insert_mutation, build_update_mutation,
    collect_batch_mutations, trigger_mutation_to_commitlog_mutation, validate_batch, BatchStatementKind, CellWrite,
    Tombstone, TriggerMutation, WhereRelation,
};
use cassandra_server::error::ExecutorError;
use cassandra_server::relations::RelationOp;

fn names(v: &[&str]) -> Vec<String> {
    v.iter().map(|s| s.to_string()).collect()
}

fn rel(column: &str, op: RelationOp, value: i32) -> WhereRelation {
    WhereRelation { column: column.to_string(), op, value: Some(value.to_be_bytes().to_vec()) }
}

fn delete(relations: &[WhereRelation], columns: &[&str], now: i64) -> cassandra_server::mutations::Mutation {
    build_delete_mutation("ks", "events", &names(&["id"]), &names(&["bucket"]), relations, &names(columns), now)
}

#[test]
fn batch_delete_builder_preserves_partition_tombstone() {
    let mutation = delete(&[rel("id", RelationOp::Eq, 7)], &[], 1_000_000);
    assert!(mutation.rows.is_empty());
    assert!(mutation.partition_tombstone.is_some());
    assert!(mutation.range_tombstones.is_empty());
    assert_eq!(mutation.partition_tombstone, Some(Tombstone { timestamp: 1_000_000, local_deletion_time: 1 }));
    assert_eq!(mutation.partition_key, 7i32.to_be_bytes().to_vec());
}

#[test]
fn batch_delete_builder_preserves_range_tombstone() {
    let mutation = delete(
        &[rel("id", RelationOp::Eq, 7), rel("bucket", RelationOp::Gt, 10), rel("bucket", RelationOp::Lt, 20)],
        &[],
        1_000_000,
    );
    assert!(mutation.rows.is_empty());
    assert!(mutation.partition_tombstone.is_none());
    assert_eq!(mutation.range_tombstones.len(), 1);
    assert!(!mutation.range_tombstones[0].start.is_empty());
    assert!(!mutation.range_tombstones[0].end.is_empty());
    assert_eq!(mutation.range_tombstones[0].start, 10i32.to_be_bytes().to_vec());
    assert_eq!(mutation.range_tombstones[0].end, 20i32.to_be_bytes().to_vec());
}

#[test]
fn deletes_of_rows_and_cells() {
    let row = delete(&[rel("id", RelationOp::Eq, 7), rel("bucket", RelationOp::Eq, 3)], &[], 2_500_000);
    assert!(row.partition_tombstone.is_none() && row.range_tombstones.is_empty());
    assert_eq!(row.rows.len(), 1);
    assert!(row.rows[0].is_tombstone);
    assert_eq!(row.rows[0].local_deletion_time, Some(2));
    assert_eq!(row.rows[0].clustering_key, 3i32.to_be_bytes().to_vec());
    assert!(row.rows[0].cells.is_empty());

    let cells = delete(&[rel("id", RelationOp::Eq, 7), rel("bucket", RelationOp::Eq, 3)], &["name", "extra"], -1_500_000);
    assert!(!cells.rows[0].is_tombstone);
    assert_eq!(cells.rows[0].local_deletion_time, None);
    assert_eq!(
        cells.rows[0].cells,
        vec![
            CellWrite { column: "name".to_string(), value: None, timestamp: -1_500_000, ttl: 0, local_deletion_time: Some(-1), is_tombstone: true },
            CellWrite { column: "extra".to_string(), value: None, timestamp: -1_500_000, ttl: 0, local_deletion_time: Some(-1), is_tombstone: true },
        ]
    );

    let without_clustering = build_delete_mutation("ks", "kv", &names(&["k"]), &[], &[rel("k", RelationOp::Eq, 1)], &[], 0);
    assert!(without_clustering.partition_tombstone.is_none());
    assert_eq!(without_clustering.rows.len(), 1);
    assert!(without_clustering.rows[0].is_tombstone);
}

#[test]
fn trigger_writes_become_one_live_row() {
    let m = trigger_mutation_to_commitlog_mutation(
        TriggerMutation {
            keyspace: "audit".to_string(),
            table: "log".to_string(),
            partition_key: vec![vec![0, 1], vec![2]],
            mutations: vec![("who".to_string(), b"ada".to_vec()), ("what".to_string(), b"x".to_vec())],
        },
        42,
    );
    assert_eq!(m.keyspace, "audit");
    assert_eq!(m.partition_key, vec![0, 1, 2]);
    assert_eq!(m.timestamp, 42);
    assert_eq!(m.rows.len(), 1);
    assert!(m.rows[0].clustering_key.is_empty());
    assert_eq!(m.rows[0].cells.len(), 2);
    assert_eq!(m.rows[0].cells[1].column, "what");
    assert_eq!(m.rows[0].cells[1].value, Some(b"x".to_vec()));
    assert!(m.rows[0].cells.iter().all(|c| c.timestamp == 42 && !c.is_tombstone && c.ttl == 0));
}

fn live(column: &str, value: Option<&[u8]>, timestamp: i64) -> CellWrite {
    CellWrite {
        column: column.to_string(),
        value: value.map(|v| v.to_vec()),
        timestamp,
        ttl: 0,
        local_deletion_time: None,
        is_tombstone: false,
    }
}

#[test]
fn inserts_split_key_columns_from_cells() {
    let m = build_insert_mutation(
        "ks",
        "events",
        &names(&["id"]),
        &names(&["bucket"]),
        &[],
        &names(&["name", "id", "bucket", "extra", "missing"]),
        &[Some(b"alice".to_vec()), Some(vec![0, 0, 0, 1]), Some(vec![0, 0, 0, 2]), None],
        77,
        None,
        1000,
    );
    assert_eq!(m.partition_key, vec![0, 0, 0, 1]);
    assert_eq!(m.rows.len(), 1);
    assert_eq!(m.rows[0].clustering_key, vec![0, 0, 0, 2]);
    assert!(!m.rows[0].is_tombstone);
    assert_eq!(
        m.rows[0].cells,
        vec![live("name", Some(b"alice"), 77), live("extra", None, 77), live("missing", None, 77)]
    );
    assert!(m.partition_tombstone.is_none() && m.range_tombstones.is_empty());
}

#[test]
fn updates_write_their_assignments() {
    let m = build_update_mutation(
        "ks",
        "events",
        &names(&["id"]),
        &names(&["bucket"]),
        &[rel("id", RelationOp::Eq, 1), rel("bucket", RelationOp::Eq, 2), rel("other", RelationOp::Eq, 9)],
        &[("name".to_string(), Some(b"bob".to_vec())), ("extra".to_string(), None)],
        5,
        None,
        1000,
    );
    assert_eq!(m.partition_key, 1i32.to_be_bytes().to_vec());
    assert_eq!(m.rows[0].clustering_key, 2i32.to_be_bytes().to_vec());
    assert_eq!(m.rows[0].cells, vec![live("name", Some(b"bob"), 5), live("extra", None, 5)]);
    assert_eq!(m.keyspace, "ks");
    assert_eq!(m.table, "events");
}

#[test]
fn inserts_and_updates_carry_using_ttl() {
    let m = build_insert_mutation(
        "ks",
        "events",
        &names(&["id"]),
        &[],
        &names(&["tag"]),
        &names(&["id", "name", "tag"]),
        &[Some(vec![0, 0, 0, 1]), Some(b"ada".to_vec()), Some(b"t".to_vec())],
        1_700_000_000_000_000,
        Some(100),
        1_700_000_000,
    );
    assert_eq!(m.timestamp, 1_700_000_000_000_000);
    assert_eq!(m.rows[0].cells.len(), 1);
    let cell = &m.rows[0].cells[0];
    assert_eq!((cell.ttl, cell.local_deletion_time), (100, Some(1_700_000_100)));
    assert_eq!(m.static_cells.len(), 1);
    assert_eq!(m.static_cells[0].column, "tag");
    assert_eq!((m.static_cells[0].ttl, m.static_cells[0].local_deletion_time), (100, Some(1_700_000_100)));

    let u = build_update_mutation(
        "ks",
        "events",
        &names(&["id"]),
        &[],
        &[rel("id", RelationOp::Eq, 1)],
        &[("name".to_string(), Some(b"bob".to_vec()))],
        42,
        Some(0),
        1_700_000_000,
    );
    assert_eq!((u.rows[0].cells[0].ttl, u.rows[0].cells[0].local_deletion_time), (0, None));
    let u = build_update_mutation("ks", "events", &names(&["id"]), &[], &[rel("id", RelationOp::Eq, 1)],
        &[("name".to_string(), None)], 42, Some(7), 10);
    assert_eq!((u.rows[0].cells[0].ttl, u.rows[0].cells[0].local_deletion_time, u.rows[0].cells[0].timestamp), (7, Some(17), 42));
}

#[test]
fn single_deletes_take_their_deletion_time_apart() {
    let m = build_delete_mutation_at("ks", "events", &names(&["id"]), &names(&["bucket"]), &[rel("id", RelationOp::Eq, 1)], &[], 5, 1_700_000_000);
    assert_eq!(m.partition_tombstone, Some(Tombstone { timestamp: 5, local_deletion_time: 1_700_000_000 }));
}

fn trigger(table: &str, key: u8) -> TriggerMutation {
    TriggerMutation {
        keyspace: "audit".to_string(),
        table: table.to_string(),
        partition_key: vec![vec![key]],
        mutations: vec![("event_type".to_string(), b"insert".to_vec())],
    }
}

#[test]
fn batches_hold_only_data_modifications_of_one_kind() {
    assert!(validate_batch(false, &[BatchStatementKind::Insert, BatchStatementKind::Update, BatchStatementKind::Delete]).is_ok());
    assert!(validate_batch(true, &[]).is_ok());
    assert!(matches!(
        validate_batch(true, &[BatchStatementKind::Update]),
        Err(ExecutorError::InvalidQuery(m)) if m == "Cannot mix counter and non-counter mutations in a batch"
    ));
    assert!(matches!(
        validate_batch(false, &[BatchStatementKind::Insert, BatchStatementKind::Other]),
        Err(ExecutorError::InvalidQuery(m)) if m == "Batch statements may only contain INSERT, UPDATE, or DELETE"
    ));
    assert!(matches!(
        validate_batch(true, &[BatchStatementKind::Other, BatchStatementKind::Insert]),
        Err(ExecutorError::InvalidQuery(m)) if m == "Batch statements may only contain INSERT, UPDATE, or DELETE"
    ));
}

#[test]
fn batch_mutations_follow_each_statement_with_its_trigger_writes() {
    let first = delete(&[rel("id", RelationOp::Eq, 1)], &[], 7);
    let second = delete(&[rel("id", RelationOp::Eq, 2)], &[], 7);
    let out = collect_batch_mutations(
        vec![(first, vec![trigger("a", 1), trigger("b", 2)]), (second, vec![trigger("c", 3)])],
        99,
    );
    let summary: Vec<(String, Vec<u8>, i64)> =
        out.iter().map(|m| (m.table.clone(), m.partition_key.clone(), m.timestamp)).collect();
    assert_eq!(
        summary,
        vec![
            ("events".to_string(), 1i32.to_be_bytes().to_vec(), 7),
            ("a".to_string(), vec![1], 99),
            ("b".to_string(), vec![2], 99),
            ("events".to_string(), 2i32.to_be_bytes().to_vec(), 7),
            ("c".to_string(), vec![3], 99),
        ]
    );
    assert_eq!(out[1].rows[0].cells[0].value, Some(b"insert".to_vec()));
}

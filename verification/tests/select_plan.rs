use cassandra_server::cells::Row;
use cassandra_server::error::ExecutorError;
use cassandra_server::relations::RelationOp;
use cassandra_server::schema::{IndexEntry, IndexKind, IndexType};
use cassandra_server::select_plan::{
    ann_search_index, clustering_slice, key_result_indices, route_select, select_has_aggregates, select_is_count,
    select_row_limit, slice_rows, KeyRelation,
};
use cassandra_server::selectors::Selector;

fn rel(column: &str, op: RelationOp, value: Option<&[u8]>) -> KeyRelation {
    KeyRelation { column: column.to_string(), op, value: value.map(|v| v.to_vec()) }
}

fn names(v: &[&str]) -> Vec<String> {
    v.iter().map(|s| s.to_string()).collect()
}

fn index(name: &str, target: &str, options: &[(&str, &str)]) -> IndexEntry {
    IndexEntry {
        keyspace: "ks".to_string(),
        table: "events".to_string(),
        name: name.to_string(),
        target: target.to_string(),
        kind: IndexKind::Custom,
        index_type: IndexType::Sai,
        options: options.iter().map(|(k, v)| (k.to_string(), v.to_string())).collect(),
    }
}

fn row(ck: &[u8]) -> Row {
    Row { clustering_key: ck.to_vec(), cells: vec![] }
}

#[test]
fn select_routes_key_relations_and_indexed_columns() {
    let relations = vec![
        rel("name", RelationOp::Eq, Some(b"alice")),
        rel("id", RelationOp::Eq, Some(&[0, 0, 0, 1])),
        rel("city", RelationOp::Eq, Some(b"paris")),
        rel("bucket", RelationOp::Eq, Some(&[0, 0, 0, 2])),
        rel("name", RelationOp::Eq, Some(b"bob")),
    ];
    let indexes = vec![index("by_city", "city", &[]), index("by_name", "name", &[]), index("by_name2", "name", &[])];
    let (key, searches) = route_select(&relations, &names(&["id", "bucket"]), &indexes);
    assert_eq!(key, vec![0, 0, 0, 1, 0, 0, 0, 2]);
    assert_eq!(searches, vec![(0, 1), (2, 0), (4, 1)]);
}

#[test]
fn ann_queries_need_a_vector_index() {
    let plain = index("by_vec", "v", &[("class_name", "StorageAttachedIndex")]);
    let vector = index(
        "by_vec2",
        "v",
        &[("class_name", "org.apache.cassandra.index.sai.StorageAttachedIndex"), ("vector_dimensions", "3")],
    );
    assert!(matches!(
        ann_search_index("v", &[plain]),
        Err(ExecutorError::InvalidQuery(m)) if m == "ANN ORDER BY requires a vector index on the target column"
    ));
    let plain = index("by_vec", "v", &[("class_name", "StorageAttachedIndex")]);
    assert_eq!(ann_search_index("v", &[plain, vector]).unwrap(), 1);
}

#[test]
fn clustering_slice_reads_bounds_in_byte_order() {
    let relations = vec![
        rel("id", RelationOp::Eq, Some(&[1])),
        rel("bucket", RelationOp::Gt, Some(&[2])),
        rel("bucket", RelationOp::Lte, Some(&[4])),
    ];
    let slice = clustering_slice(&relations, &names(&["bucket"]));
    assert_eq!(slice.lower, Some(vec![2]));
    assert!(!slice.lower_inclusive);
    assert_eq!(slice.upper, Some(vec![4]));
    assert!(slice.upper_inclusive);

    let rows = vec![row(&[1]), row(&[2]), row(&[3]), row(&[4]), row(&[4, 0]), row(&[5])];
    let kept: Vec<Vec<u8>> = slice_rows(rows, &slice, false).into_iter().map(|r| r.clustering_key).collect();
    assert_eq!(kept, vec![vec![3], vec![4]]);

    let rows = vec![row(&[1]), row(&[2]), row(&[3]), row(&[4])];
    let kept: Vec<Vec<u8>> = slice_rows(rows, &slice, true).into_iter().map(|r| r.clustering_key).collect();
    assert_eq!(kept, vec![vec![4], vec![3]]);
}

#[test]
fn clustering_equality_fixes_both_bounds() {
    let slice = clustering_slice(&[rel("bucket", RelationOp::Eq, Some(&[7])), rel("name", RelationOp::Lt, Some(b"z"))], &names(&["bucket"]));
    assert_eq!(slice.lower, Some(vec![7]));
    assert_eq!(slice.upper, Some(vec![7]));
    let kept = slice_rows(vec![row(&[6]), row(&[7]), row(&[8])], &slice, false);
    assert_eq!(kept.len(), 1);
    assert_eq!(kept[0].clustering_key, vec![7]);
    let open = clustering_slice(&[], &names(&["bucket"]));
    assert_eq!(slice_rows(vec![row(&[6]), row(&[])], &open, false).len(), 2);
}

#[test]
fn select_result_shape() {
    assert_eq!(select_row_limit(Some(3)), 3);
    assert_eq!(select_row_limit(None), usize::MAX);
    assert_eq!(select_row_limit(Some(-1)), usize::MAX);

    let count = vec![Selector::Alias { selector: Box::new(Selector::Count), alias: "n".to_string() }];
    assert!(select_is_count(&count, true));
    assert!(!select_is_count(&count, false));
    assert!(!select_is_count(&[], true));
    let two = vec![Selector::Count, Selector::Column("id".to_string())];
    assert!(!select_is_count(&two, true));

    let sum = vec![
        Selector::Column("id".to_string()),
        Selector::Function("SUM".to_string(), vec![Selector::Column("v".to_string())]),
    ];
    assert!(select_has_aggregates(&sum, &[]));
    let plain = vec![
        Selector::Column("id".to_string()),
        Selector::Function("my_agg".to_string(), vec![Selector::Column("v".to_string())]),
    ];
    assert!(!select_has_aggregates(&plain, &[false, false]));
    assert!(select_has_aggregates(&plain, &[false, true]));
    assert!(!select_has_aggregates(&[], &[true]));

    let columns = names(&["bucket", "id", "name", "region"]);
    assert_eq!(key_result_indices(&columns, &names(&["id", "region"])), vec![1, 3]);
}

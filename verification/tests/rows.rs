use cassandra_server::cells::{
    cell_for_column, current_live_cell_value, raw_column_value, writetime_or_ttl_value, Cell, Row,
};
use cassandra_server::filtering::{row_matches_relations, FilterRelation, RelationOperand};
use cassandra_server::relations::RelationOp;
use cassandra_server::scan::{scan_selected_rows, ScanFilter, ScannedPartition};
use cassandra_server::selectors::{selector_output_name, selector_result_type, Selector};
use cassandra_server::types::{ColumnMetadata, CqlType};

fn cell(column: &str, value: Option<&[u8]>, timestamp: i64, ttl: i32, live: bool) -> Cell {
    Cell { column: column.to_string(), value: value.map(|v| v.to_vec()), timestamp, ttl, live }
}

fn names(v: &[&str]) -> Vec<String> {
    v.iter().map(|s| s.to_string()).collect()
}

fn sample_row() -> Row {
    Row {
        clustering_key: vec![0, 0, 0, 7],
        cells: vec![
            cell("v", Some(b"old"), 10, 0, false),
            cell("v", Some(b"a"), 20, 300, true),
            cell("v", Some(b"b"), 30, 0, true),
            cell("w", None, 40, 0, true),
        ],
    }
}

#[test]
fn key_columns_have_no_cell() {
    let row = sample_row();
    let pk = names(&["id"]);
    let ck = names(&["c"]);
    assert!(cell_for_column("id", &pk, &ck, &[], &row, None).is_none());
    assert!(cell_for_column("c", &pk, &ck, &[], &row, None).is_none());
    let c = cell_for_column("v", &pk, &ck, &[], &row, None).unwrap();
    assert_eq!(c.timestamp, 20);
}

#[test]
fn writetime_and_ttl_come_from_the_first_live_cell() {
    let row = sample_row();
    let pk = names(&["id"]);
    let ck = names(&["c"]);
    assert_eq!(
        writetime_or_ttl_value("WRITETIME", "v", &pk, &ck, &[], &row, None),
        Some(20i64.to_be_bytes().to_vec())
    );
    assert_eq!(
        writetime_or_ttl_value("maxwritetime", "v", &pk, &ck, &[], &row, None),
        Some(20i64.to_be_bytes().to_vec())
    );
    assert_eq!(
        writetime_or_ttl_value("ttl", "v", &pk, &ck, &[], &row, None),
        Some(300i32.to_be_bytes().to_vec())
    );
    assert_eq!(writetime_or_ttl_value("ttl", "w", &pk, &ck, &[], &row, None), None);
    assert_eq!(writetime_or_ttl_value("writetime", "id", &pk, &ck, &[], &row, None), None);
    assert_eq!(writetime_or_ttl_value("other", "v", &pk, &ck, &[], &row, None), None);
}

#[test]
fn static_columns_read_the_static_row() {
    let row = sample_row();
    let static_row = Row { clustering_key: vec![], cells: vec![cell("s", Some(b"st"), 5, 0, true)] };
    let statics = names(&["s"]);
    let c = cell_for_column("s", &[], &[], &statics, &row, Some(&static_row)).unwrap();
    assert_eq!(c.value.as_deref(), Some(&b"st"[..]));
    assert!(cell_for_column("s", &[], &[], &statics, &row, None).is_none());
}

#[test]
fn current_value_is_the_last_live_cell() {
    let row = sample_row();
    assert_eq!(current_live_cell_value(&row, "v"), Some(&b"b"[..]));
    assert_eq!(current_live_cell_value(&row, "w"), None);
    assert_eq!(current_live_cell_value(&row, "x"), None);
}

#[test]
fn raw_values_for_keys_and_cells() {
    let row = sample_row();
    let pk = names(&["id"]);
    let ck = names(&["c"]);
    assert_eq!(raw_column_value(&pk, &ck, &[], "id", &[1, 2], &row, None), Some(vec![1, 2]));
    assert_eq!(raw_column_value(&pk, &ck, &[], "c", &[1, 2], &row, None), Some(vec![0, 0, 0, 7]));
    assert_eq!(raw_column_value(&pk, &ck, &[], "v", &[1, 2], &row, None), Some(b"a".to_vec()));
    let two_ck = names(&["c1", "c2"]);
    assert_eq!(raw_column_value(&pk, &two_ck, &[], "c1", &[1, 2], &row, None), None);
}

#[test]
fn rows_filtered_by_every_relation() {
    let row = sample_row();
    let pk = names(&["id"]);
    let ck = names(&["c"]);
    let cols = vec![ColumnMetadata { name: "c".to_string(), column_type: CqlType::Int }];
    let eq_v = FilterRelation {
        column: "v".to_string(),
        op: RelationOp::Eq,
        operand: RelationOperand::Values(vec![Some(b"a".to_vec())]),
    };
    let token_gt = FilterRelation {
        column: "TOKEN".to_string(),
        op: RelationOp::Gt,
        operand: RelationOperand::Tokens(vec![100]),
    };
    let tuple_eq = FilterRelation {
        column: "(c)".to_string(),
        op: RelationOp::Eq,
        operand: RelationOperand::Tuples(vec![vec![0, 0, 0, 7]]),
    };
    assert!(row_matches_relations(&[], &cols, &pk, &ck, &[], &[1], 5, &row, None));
    assert!(row_matches_relations(&[eq_v], &cols, &pk, &ck, &[], &[1], 5, &row, None));
    assert!(!row_matches_relations(&[token_gt], &cols, &pk, &ck, &[], &[1], 5, &row, None));
    let token_gt = FilterRelation {
        column: "token".to_string(),
        op: RelationOp::Gt,
        operand: RelationOperand::Tokens(vec![100]),
    };
    assert!(row_matches_relations(&[token_gt, tuple_eq], &cols, &pk, &ck, &[], &[1], 500, &row, None));
}

#[test]
fn select_projects_writetime_and_ttl() {
    let row = Row {
        clustering_key: vec![0, 0, 0, 1],
        cells: vec![cell("name", Some(b"alice"), 123_456_789, 3600, true)],
    };
    let pk = names(&["id"]);
    let ck = names(&["bucket"]);
    let cols = vec![
        ColumnMetadata { name: "id".to_string(), column_type: CqlType::Int },
        ColumnMetadata { name: "bucket".to_string(), column_type: CqlType::Int },
        ColumnMetadata { name: "name".to_string(), column_type: CqlType::Varchar },
    ];
    let selectors = vec![
        Selector::WritetimeOrTtl("writetime".to_string(), "name".to_string()),
        Selector::WritetimeOrTtl("ttl".to_string(), "name".to_string()),
    ];
    assert_eq!(selector_output_name(&selectors[0]), "writetime(name)");
    assert_eq!(selector_result_type(&selectors[0], &cols), Some(CqlType::Bigint));
    assert_eq!(selector_output_name(&selectors[1]), "ttl(name)");
    assert_eq!(selector_result_type(&selectors[1], &cols), Some(CqlType::Int));
    let values: Vec<Option<Vec<u8>>> = ["writetime", "ttl"]
        .iter()
        .map(|kind| writetime_or_ttl_value(kind, "name", &pk, &ck, &[], &row, None))
        .collect();
    assert_eq!(
        values,
        vec![Some(123_456_789i64.to_be_bytes().to_vec()), Some(3600i32.to_be_bytes().to_vec())]
    );
}

struct Event {
    id: i32,
    token: i64,
    row: Row,
}

fn event(id: i32, bucket: i32, name: &str) -> Event {
    Event {
        id,
        token: i64::from(id) * 1000 - 500,
        row: Row {
            clustering_key: bucket.to_be_bytes().to_vec(),
            cells: vec![cell("name", Some(name.as_bytes()), 1, 0, true)],
        },
    }
}

fn event_columns() -> Vec<ColumnMetadata> {
    vec![
        ColumnMetadata { name: "id".to_string(), column_type: CqlType::Int },
        ColumnMetadata { name: "bucket".to_string(), column_type: CqlType::Int },
        ColumnMetadata { name: "name".to_string(), column_type: CqlType::Varchar },
    ]
}

fn filter<'a>(events: &'a [Event], relations: &[FilterRelation]) -> Vec<&'a Event> {
    let parts: Vec<ScannedPartition> = events
        .iter()
        .map(|e| ScannedPartition {
            partition_key: e.id.to_be_bytes().to_vec(),
            token: e.token,
            rows: vec![Row { clustering_key: e.row.clustering_key.clone(), cells: e.row.cells.iter().map(copy_cell).collect() }],
            static_row: None,
        })
        .collect();
    let scan = ScanFilter {
        relations: relations.iter().map(copy_relation).collect(),
        cols: event_columns(),
        pk_names: names(&["id"]),
        ck_names: names(&["bucket"]),
        static_col_names: vec![],
    };
    scan_selected_rows(&parts, &scan, None).into_iter().map(|(p, _)| &events[p]).collect()
}

fn copy_cell(c: &Cell) -> Cell {
    Cell { column: c.column.clone(), value: c.value.clone(), timestamp: c.timestamp, ttl: c.ttl, live: c.live }
}

fn copy_relation(r: &FilterRelation) -> FilterRelation {
    let operand = match &r.operand {
        RelationOperand::Values(v) => RelationOperand::Values(v.clone()),
        RelationOperand::Tokens(t) => RelationOperand::Tokens(t.clone()),
        RelationOperand::Tuples(t) => RelationOperand::Tuples(t.clone()),
    };
    FilterRelation { column: r.column.clone(), op: r.op, operand }
}

fn name_of(e: &Event) -> String {
    String::from_utf8(e.row.cells[0].value.clone().unwrap()).unwrap()
}

#[test]
fn unkeyed_select_filters_non_key_like_restriction() {
    let events = vec![event(1, 1, "alpha"), event(2, 1, "bravo"), event(3, 1, "alpine")];
    let like = FilterRelation {
        column: "name".to_string(),
        op: RelationOp::Like,
        operand: RelationOperand::Values(vec![Some(b"alp%".to_vec())]),
    };
    let mut found: Vec<String> = filter(&events, &[like]).into_iter().map(name_of).collect();
    found.sort();
    assert_eq!(found, vec!["alpha".to_string(), "alpine".to_string()]);
}

#[test]
fn unkeyed_select_filters_token_restriction() {
    let events = vec![event(1, 1, "one"), event(2, 1, "two")];
    let token = FilterRelation {
        column: "token".to_string(),
        op: RelationOp::Eq,
        operand: RelationOperand::Tokens(vec![events[0].token]),
    };
    let found = filter(&events, &[token]);
    assert_eq!(found.len(), 1);
    assert_eq!(found[0].id, 1);
    assert_eq!(name_of(found[0]), "one");
}

#[test]
fn keyed_select_filters_non_key_restriction() {
    let events = vec![event(1, 1, "keep"), event(1, 2, "drop")];
    let relations = [
        FilterRelation {
            column: "id".to_string(),
            op: RelationOp::Eq,
            operand: RelationOperand::Values(vec![Some(1i32.to_be_bytes().to_vec())]),
        },
        FilterRelation {
            column: "name".to_string(),
            op: RelationOp::Eq,
            operand: RelationOperand::Values(vec![Some(b"keep".to_vec())]),
        },
    ];
    let found = filter(&events, &relations);
    assert_eq!(found.len(), 1);
    assert_eq!(found[0].row.clustering_key, 1i32.to_be_bytes().to_vec());
    assert_eq!(name_of(found[0]), "keep");
}

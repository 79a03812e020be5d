use cassandra_server::alter_table::{alter_table_columns, AlterColumnOp, SchemaColumn, TableSchema};
use cassandra_server::constraints::{ColumnConstraint, ConstraintRelationOp};
use cassandra_server::ddl::{ClusteringOrder, ColumnKind};
use cassandra_server::error::ExecutorError;
use cassandra_server::types::CqlType;

fn column(name: &str, kind: ColumnKind, position: i32, column_type: CqlType) -> SchemaColumn {
    SchemaColumn {
        name: name.to_string(),
        kind,
        position,
        column_type,
        clustering_order: ClusteringOrder::Unordered,
        comment: String::new(),
        constraints: vec![],
        masked_with: None,
    }
}

fn events() -> TableSchema {
    TableSchema {
        columns: vec![
            column("id", ColumnKind::PartitionKey, 0, CqlType::Int),
            column("bucket", ColumnKind::Clustering, 0, CqlType::Int),
            column("name", ColumnKind::Regular, 0, CqlType::Varchar),
            column("extra", ColumnKind::Regular, 3, CqlType::Int),
        ],
        dropped: vec![],
    }
}

fn find<'a>(t: &'a TableSchema, name: &str) -> Option<&'a SchemaColumn> {
    t.columns.iter().find(|c| c.name == name)
}

fn refusal(r: Result<(), ExecutorError>) -> String {
    match r {
        Err(ExecutorError::InvalidQuery(m)) => m,
        other => panic!("unexpected {:?}", other),
    }
}

fn add(name: &str, column_type: Option<CqlType>, is_static: bool) -> AlterColumnOp {
    AlterColumnOp::AddColumn { name: name.to_string(), column_type, is_static, constraints: vec![], mask: None }
}

#[test]
fn alter_table_adds_and_drops_columns() {
    let mut t = events();
    alter_table_columns(&mut t, "ks", "events", add("status", Some(CqlType::Varchar), false)).unwrap();
    let status = find(&t, "status").unwrap();
    assert_eq!(status.kind, ColumnKind::Regular);
    assert_eq!(status.position, 4);
    alter_table_columns(&mut t, "ks", "events", add("shared", Some(CqlType::Int), true)).unwrap();
    assert_eq!(find(&t, "shared").unwrap().position, 0);
    assert_eq!(find(&t, "shared").unwrap().kind, ColumnKind::Static);

    alter_table_columns(&mut t, "ks", "events", AlterColumnOp::DropColumn("status".to_string(), "text".to_string()))
        .unwrap();
    assert!(find(&t, "status").is_none());
    assert!(t.dropped.iter().any(|c| c.name == "status" && c.column_type_name == "text"));
    assert!(t.dropped[0].dropped_time > 0);
}

#[test]
fn alter_table_refusals_leave_the_table_unchanged() {
    let mut t = events();
    assert_eq!(
        refusal(alter_table_columns(&mut t, "ks", "events", add("name", Some(CqlType::Int), false))),
        "Column 'name' already exists in ks.events"
    );
    assert_eq!(
        refusal(alter_table_columns(&mut t, "ks", "events", add("fresh", None, false))),
        "Unknown type for column 'fresh'"
    );
    assert_eq!(
        refusal(alter_table_columns(&mut t, "ks", "events", AlterColumnOp::DropColumn("id".to_string(), "int".to_string()))),
        "Cannot drop primary key column 'id'"
    );
    assert_eq!(
        refusal(alter_table_columns(&mut t, "ks", "events", AlterColumnOp::AlterColumn("bucket".to_string(), Some(CqlType::Bigint)))),
        "Cannot alter primary key column 'bucket'"
    );
    assert_eq!(
        refusal(alter_table_columns(&mut t, "ks", "events", AlterColumnOp::DropMask("ghost".to_string()))),
        "Column 'ghost' does not exist in ks.events"
    );
    let bad_mask = AlterColumnOp::MaskColumn(
        "name".to_string(),
        "mask_unknown".to_string(),
        Err(ExecutorError::InvalidQuery("Invalid arguments for mask".to_string())),
    );
    assert_eq!(refusal(alter_table_columns(&mut t, "ks", "events", bad_mask)), "Invalid arguments for mask");
    assert_eq!(t.columns.len(), 4);
    assert!(t.dropped.is_empty());
    assert!(find(&t, "name").unwrap().masked_with.is_none());
}

#[test]
fn alter_table_sets_column_properties() {
    let mut t = events();
    alter_table_columns(&mut t, "ks", "events", AlterColumnOp::AlterColumn("extra".to_string(), Some(CqlType::Bigint)))
        .unwrap();
    assert_eq!(find(&t, "extra").unwrap().column_type, CqlType::Bigint);
    alter_table_columns(&mut t, "ks", "events", AlterColumnOp::CommentColumn("name".to_string(), "who".to_string()))
        .unwrap();
    assert_eq!(find(&t, "name").unwrap().comment, "who");
    let check = ColumnConstraint::Scalar {
        column: "extra".to_string(),
        op: ConstraintRelationOp::Gt,
        term: "0".to_string(),
    };
    alter_table_columns(&mut t, "ks", "events", AlterColumnOp::AlterConstraints("extra".to_string(), vec![check.clone()]))
        .unwrap();
    assert_eq!(find(&t, "extra").unwrap().constraints, vec![check]);
    alter_table_columns(&mut t, "ks", "events", AlterColumnOp::DropConstraints("extra".to_string())).unwrap();
    assert!(find(&t, "extra").unwrap().constraints.is_empty());
    alter_table_columns(
        &mut t,
        "ks",
        "events",
        AlterColumnOp::MaskColumn("name".to_string(), "mask_inner".to_string(), Ok(vec!["1".to_string(), "2".to_string()])),
    )
    .unwrap();
    assert_eq!(
        find(&t, "name").unwrap().masked_with,
        Some(("mask_inner".to_string(), vec!["1".to_string(), "2".to_string()]))
    );
    alter_table_columns(&mut t, "ks", "events", AlterColumnOp::DropMask("name".to_string())).unwrap();
    assert!(find(&t, "name").unwrap().masked_with.is_none());
    assert_eq!(t.columns.iter().map(|c| c.name.as_str()).collect::<Vec<_>>(), vec!["id", "bucket", "name", "extra"]);
}

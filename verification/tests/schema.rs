use std::collections::BTreeMap;

use cassandra_server::alter_table::TableSchema;
use cassandra_server::alter_type::AlterTypeOp;
use cassandra_server::create_table::{build_table_columns, ColumnDef};
use cassandra_server::ddl::{ClusteringOrder, ColumnKind};
use cassandra_server::error::ExecutorError;
use cassandra_server::options::{TableParams, TransactionalMode};
use cassandra_server::schema::{
    ChangeTarget, ChangeType, IndexKind, IndexPlan, IndexType, SchemaCatalog, SchemaOutcome, ViewPlan,
};
use cassandra_server::selectors::Selector;
use cassandra_server::types::{CqlType, CqlTypeName};

fn params() -> TableParams {
    TableParams {
        gc_grace_seconds: 864000,
        default_time_to_live: 0,
        min_index_interval: 128,
        max_index_interval: 2048,
        memtable_flush_period_in_ms: 0,
        comment: String::new(),
        allow_auto_snapshot: true,
        incremental_backups: true,
        compaction: BTreeMap::new(),
        compression: BTreeMap::new(),
        caching: BTreeMap::new(),
        read_repair: "BLOCKING".to_string(),
        speculative_retry: "99p".to_string(),
        additional_write_policy: "99p".to_string(),
        memtable: "default".to_string(),
        fast_path: "keyspace".to_string(),
        transactional_migration_from: "none".to_string(),
        auto_repair: BTreeMap::new(),
        cdc: false,
        transactional_mode: TransactionalMode::Off,
    }
}

fn def(name: &str, cql_type: CqlType) -> ColumnDef {
    ColumnDef { name: name.to_string(), cql_type, is_static: false, constraints: vec![], mask: None }
}

fn names(v: &[&str]) -> Vec<String> {
    v.iter().map(|s| s.to_string()).collect()
}

fn table(columns: Vec<ColumnDef>, partition_key: &[&str], clustering_key: &[&str]) -> TableSchema {
    let columns = build_table_columns(columns, &names(partition_key), &names(clustering_key), &vec![]).unwrap();
    TableSchema { columns, dropped: vec![] }
}

/// The keyspace `ks` with the tables `events` (id, bucket, name) and `audit`.
fn catalog() -> SchemaCatalog {
    let mut c = SchemaCatalog::new();
    c.create_keyspace("ks", vec![], true, false).unwrap();
    let events = table(
        vec![def("id", CqlType::Int), def("bucket", CqlType::Int), def("name", CqlType::Varchar)],
        &["id"],
        &["bucket"],
    );
    c.create_table("ks", "events", events, params(), false).unwrap();
    let audit = table(vec![def("id", CqlType::Int), def("event_type", CqlType::Varchar)], &["id"], &[]);
    c.create_table("ks", "audit", audit, params(), false).unwrap();
    c
}

fn invalid(r: Result<SchemaOutcome, ExecutorError>) -> String {
    match r {
        Err(ExecutorError::InvalidQuery(m)) => m,
        other => panic!("expected an invalid query, got {:?}", other),
    }
}

fn is_void(r: Result<SchemaOutcome, ExecutorError>) -> bool {
    matches!(r, Ok(SchemaOutcome::Void))
}

fn option<'a>(options: &'a [(String, String)], key: &str) -> Option<&'a str> {
    options.iter().find(|(k, _)| k == key).map(|(_, v)| v.as_str())
}

fn view_plan(base_table: &str) -> ViewPlan {
    ViewPlan {
        base_table: base_table.to_string(),
        select_columns: None,
        where_clause: String::new(),
        partition_key: names(&["id"]),
        clustering_key: vec![],
        options: vec![],
    }
}

fn index_plan(table: &str, index_name: &str, custom_class: Option<&str>, options: &[(&str, &str)], if_not_exists: bool) -> IndexPlan {
    IndexPlan {
        table: table.to_string(),
        index_name: index_name.to_string(),
        column: "name".to_string(),
        custom_class: custom_class.map(|c| c.to_string()),
        options: options.iter().map(|(k, v)| (k.to_string(), v.to_string())).collect(),
        if_not_exists,
    }
}

#[test]
fn create_keyspace_respects_if_not_exists() {
    let mut c = catalog();
    assert!(invalid(c.create_keyspace("ks", vec![], true, false)).contains("already exists"));
    assert!(is_void(c.create_keyspace("ks", vec![], true, true)));
}

#[test]
fn create_table_respects_if_not_exists() {
    let mut c = catalog();
    let duplicate = || table(vec![def("id", CqlType::Int)], &["id"], &[]);
    assert!(invalid(c.create_table("ks", "events", duplicate(), params(), false)).contains("already exists"));
    assert!(is_void(c.create_table("ks", "events", duplicate(), params(), true)));
}

#[test]
fn drop_keyspace_respects_if_exists() {
    let mut c = catalog();
    assert!(matches!(
        c.drop_keyspace("missing", false),
        Err(ExecutorError::KeyspaceNotFound(name)) if name == "missing"
    ));
    assert!(is_void(c.drop_keyspace("missing", true)));
}

#[test]
fn drop_table_respects_if_exists() {
    let mut c = catalog();
    assert!(matches!(
        c.drop_table("ks", "missing", false),
        Err(ExecutorError::TableNotFound(ks, table)) if ks == "ks" && table == "missing"
    ));
    assert!(is_void(c.drop_table("ks", "missing", true)));
}

#[test]
fn create_and_drop_type_respect_existence_flags() {
    let mut c = catalog();
    let fields = || vec![("street".to_string(), "text".to_string())];
    c.create_type("ks", "address", fields(), false).unwrap();
    assert!(invalid(c.create_type("ks", "address", fields(), false)).contains("already exists"));
    assert!(is_void(c.create_type("ks", "address", fields(), true)));

    c.drop_type("ks", "address", false).unwrap();
    assert!(invalid(c.drop_type("ks", "address", false)).contains("does not exist"));
    assert!(is_void(c.drop_type("ks", "address", true)));
}

#[test]
fn create_and_drop_materialized_view_respect_existence_flags() {
    let mut c = catalog();
    c.create_view("ks", "events_by_id", view_plan("events"), false).unwrap();
    assert!(invalid(c.create_view("ks", "events_by_id", view_plan("events"), false)).contains("already exists"));
    assert!(is_void(c.create_view("ks", "events_by_id", view_plan("events"), true)));
    assert!(matches!(
        c.create_view("ks", "bad_view", view_plan("missing"), false),
        Err(ExecutorError::TableNotFound(ks, table)) if ks == "ks" && table == "missing"
    ));

    c.drop_view("ks", "events_by_id", false).unwrap();
    assert!(matches!(
        c.drop_view("ks", "events_by_id", false),
        Err(ExecutorError::TableNotFound(ks, view)) if ks == "ks" && view == "events_by_id"
    ));
    assert!(is_void(c.drop_view("ks", "events_by_id", true)));
}

#[test]
fn create_and_drop_trigger_respect_existence_flags() {
    let mut c = catalog();
    let class = "org.example.AuditTrigger";
    c.create_trigger("ks", "events", "audit_trigger", class, false).unwrap();
    assert!(invalid(c.create_trigger("ks", "events", "audit_trigger", class, false)).contains("already exists"));
    assert!(is_void(c.create_trigger("ks", "events", "audit_trigger", class, true)));

    c.drop_trigger("ks", "events", "audit_trigger", false).unwrap();
    assert!(invalid(c.drop_trigger("ks", "events", "audit_trigger", false)).contains("does not exist"));
    assert!(is_void(c.drop_trigger("ks", "events", "audit_trigger", true)));
}

#[test]
fn truncate_missing_table_fails() {
    let c = catalog();
    assert!(matches!(
        c.check_truncate("ks", "missing"),
        Err(ExecutorError::TableNotFound(ref ks, ref table)) if ks == "ks" && table == "missing"
    ));
    assert!(c.check_truncate("ks", "events").is_ok());
}

#[test]
fn alter_materialized_view_updates_stored_options() {
    let mut c = catalog();
    let plan = ViewPlan {
        base_table: "events".to_string(),
        select_columns: Some(vec![
            Selector::Column("id".to_string()),
            Selector::Column("bucket".to_string()),
            Selector::Column("name".to_string()),
        ]),
        where_clause: String::new(),
        partition_key: names(&["name"]),
        clustering_key: names(&["id", "bucket"]),
        options: vec![("gc_grace_seconds".to_string(), "86400".to_string())],
    };
    c.create_view("ks", "events_by_name", plan, false).unwrap();

    let result = c.alter_view(
        "ks",
        "events_by_name",
        vec![
            ("gc_grace_seconds".to_string(), "3600".to_string()),
            ("comment".to_string(), "by name".to_string()),
        ],
    );
    assert!(matches!(result.unwrap(), SchemaOutcome::Changed { .. }));

    let view = c.views.iter().find(|v| v.keyspace == "ks" && v.name == "events_by_name").unwrap();
    assert_eq!(option(&view.options, "gc_grace_seconds"), Some("3600"));
    assert_eq!(option(&view.options, "comment"), Some("by name"));
    assert_eq!(view.columns, names(&["id", "bucket", "name"]));
    assert!(!view.include_all_columns);
}

#[test]
fn alter_missing_materialized_view_fails() {
    let mut c = catalog();
    let result = c.alter_view("ks", "missing_view", vec![("gc_grace_seconds".to_string(), "3600".to_string())]);
    assert!(matches!(
        result,
        Err(ExecutorError::TableNotFound(ref ks, ref table)) if ks == "ks" && table == "missing_view"
    ));
}

#[test]
fn create_index_registers_augmented_storage_options() {
    let mut c = catalog();
    let class = "org.apache.cassandra.index.sai.StorageAttachedIndex";
    let plan = index_plan("events", "events_name_sai_idx", Some(class), &[("case_sensitive", "false")], false);
    c.create_index("ks", plan, Ok(())).unwrap();

    let definition = c.indexes.iter().find(|i| i.table == "events" && i.name == "events_name_sai_idx").unwrap();
    assert_eq!(definition.index_type, IndexType::Sai);
    assert_eq!(definition.kind, IndexKind::Custom);
    assert_eq!(option(&definition.options, "target"), Some("name"));
    assert_eq!(option(&definition.options, "class_name"), Some(class));
    assert_eq!(option(&definition.options, "case_sensitive"), Some("false"));
}

#[test]
fn create_sasi_index_requires_sasi_feature() {
    let mut c = catalog();
    let plan = index_plan("events", "events_name_sasi_idx", Some("org.apache.cassandra.index.sasi.SASIIndex"), &[], false);
    assert!(invalid(c.create_index("ks", plan, Ok(()))).contains("SASI index support is not enabled"));
}

#[test]
fn create_index_respects_if_not_exists_and_requires_table() {
    let mut c = catalog();
    c.create_index("ks", index_plan("events", "events_name_idx", None, &[], false), Ok(())).unwrap();
    assert!(invalid(c.create_index("ks", index_plan("events", "events_name_idx", None, &[], false), Ok(())))
        .contains("already exists"));
    assert!(is_void(c.create_index("ks", index_plan("events", "events_name_idx", None, &[], true), Ok(()))));
    assert!(matches!(
        c.create_index("ks", index_plan("missing", "missing_name_idx", None, &[], false), Ok(())),
        Err(ExecutorError::TableNotFound(ks, table)) if ks == "ks" && table == "missing"
    ));
}

#[test]
fn create_sai_index_rejects_invalid_analyzer_options() {
    let mut c = catalog();
    let class = "org.apache.cassandra.index.sai.StorageAttachedIndex";
    let plan = index_plan("events", "events_bad_sai_idx", Some(class), &[("case_sensitive", "not-a-bool")], false);
    let analyzer = Err("Illegal value for boolean option 'case_sensitive': not-a-bool".to_string());
    let msg = invalid(c.create_index("ks", plan, analyzer));
    assert!(msg.contains("Invalid SAI analyzer options"));
    assert!(msg.contains("case_sensitive"));
    assert!(c.indexes.is_empty());
}

#[test]
fn create_keyspace_takes_strategy_from_class_option() {
    let mut c = SchemaCatalog::new();
    let replication = vec![
        ("class".to_string(), "NetworkTopologyStrategy".to_string()),
        ("dc1".to_string(), "3".to_string()),
    ];
    let outcome = c.create_keyspace("app", replication, false, false).unwrap();
    assert!(matches!(
        outcome,
        SchemaOutcome::Changed { change_type: ChangeType::Created, target: ChangeTarget::Keyspace, ref keyspace, name: None }
            if keyspace == "app"
    ));
    let ks = &c.keyspaces[0];
    assert_eq!(ks.params.strategy_class, "NetworkTopologyStrategy");
    assert_eq!(ks.params.replication, vec![("dc1".to_string(), "3".to_string())]);
    assert!(!ks.params.durable_writes);

    c.create_keyspace("plain", vec![("replication_factor".to_string(), "1".to_string())], true, false).unwrap();
    assert_eq!(c.keyspaces[1].params.strategy_class, "SimpleStrategy");
}

#[test]
fn alter_keyspace_replaces_given_parameters() {
    let mut c = catalog();
    assert!(matches!(
        c.alter_keyspace("missing", None, None, None),
        Err(ExecutorError::KeyspaceNotFound(k)) if k == "missing"
    ));
    let repl = vec![("replication_factor".to_string(), "2".to_string())];
    c.alter_keyspace("ks", Some(repl), Some(false), Some("main".to_string())).unwrap();
    let ks = &c.keyspaces[0];
    assert_eq!(ks.params.strategy_class, "SimpleStrategy");
    assert_eq!(ks.params.replication, vec![("replication_factor".to_string(), "2".to_string())]);
    assert!(!ks.params.durable_writes);
    assert_eq!(ks.params.comment, "main");
}

#[test]
fn drop_keyspace_removes_everything_in_it() {
    let mut c = catalog();
    c.create_keyspace("other", vec![], true, false).unwrap();
    c.create_table("other", "t", table(vec![def("id", CqlType::Int)], &["id"], &[]), params(), false).unwrap();
    c.create_type("ks", "address", vec![], false).unwrap();
    c.create_view("ks", "v", view_plan("events"), false).unwrap();
    c.create_trigger("ks", "events", "trg", "T", false).unwrap();
    c.create_index("ks", index_plan("events", "idx", None, &[], false), Ok(())).unwrap();

    let outcome = c.drop_keyspace("ks", false).unwrap();
    assert!(matches!(outcome, SchemaOutcome::Changed { change_type: ChangeType::Dropped, .. }));
    assert_eq!(c.keyspaces.len(), 1);
    assert_eq!(c.keyspaces[0].name, "other");
    assert_eq!(c.tables.len(), 1);
    assert_eq!(c.tables[0].keyspace, "other");
    assert!(c.types.is_empty() && c.views.is_empty() && c.triggers.is_empty() && c.indexes.is_empty());
    assert!(matches!(c.create_table("ks", "t", table(vec![], &[], &[]), params(), false), Err(ExecutorError::KeyspaceNotFound(_))));
}

#[test]
fn drop_table_removes_its_triggers_and_indexes() {
    let mut c = catalog();
    c.create_trigger("ks", "events", "trg", "T", false).unwrap();
    c.create_trigger("ks", "audit", "trg", "T", false).unwrap();
    c.create_index("ks", index_plan("events", "idx", None, &[], false), Ok(())).unwrap();
    c.create_view("ks", "v", view_plan("events"), false).unwrap();
    c.drop_table("ks", "events", false).unwrap();
    assert_eq!(c.tables.len(), 1);
    assert_eq!(c.triggers.len(), 1);
    assert_eq!(c.triggers[0].table, "audit");
    assert!(c.indexes.is_empty());
    assert_eq!(c.views.len(), 1);
}

#[test]
fn create_index_refuses_second_index_on_column() {
    let mut c = catalog();
    c.create_index("ks", index_plan("events", "first", None, &[], false), Ok(())).unwrap();
    assert_eq!(
        invalid(c.create_index("ks", index_plan("events", "second", None, &[], true), Ok(()))),
        "An index already exists on column 'name' (index 'first')"
    );
    assert_eq!(c.indexes[0].kind, IndexKind::Keys);
    assert_eq!(c.indexes[0].index_type, IndexType::Legacy);
}

#[test]
fn drop_index_finds_its_table() {
    let mut c = catalog();
    c.create_index("ks", index_plan("audit", "idx", None, &[], false), Ok(())).unwrap();
    assert_eq!(c.find_indexed_table("ks", "idx"), Some("audit".to_string()));
    assert_eq!(invalid(c.drop_index("ks", "nope", false)), "Index 'nope' not found in keyspace 'ks'");
    assert!(is_void(c.drop_index("ks", "nope", true)));
    assert!(matches!(
        c.drop_index("ks", "idx", false).unwrap(),
        SchemaOutcome::Changed { change_type: ChangeType::Dropped, target: ChangeTarget::Index, .. }
    ));
    assert!(c.indexes.is_empty());
    assert_eq!(c.find_indexed_table("ks", "idx"), None);
}

#[test]
fn alter_type_goes_through_the_catalog() {
    let mut c = catalog();
    c.create_type(
        "ks",
        "address",
        vec![("street".to_string(), "text".to_string()), ("zip".to_string(), "int".to_string())],
        false,
    )
    .unwrap();
    let missing = c.alter_type("ks", "nothing", AlterTypeOp::CommentType("x".to_string()));
    assert_eq!(invalid(missing), "Type 'ks.nothing' does not exist");
    c.alter_type("ks", "address", AlterTypeOp::AddField("country".to_string(), CqlTypeName::Simple("text".to_string())))
        .unwrap();
    assert_eq!(c.types[0].field_names, names(&["street", "zip", "country"]));
    assert_eq!(c.types[0].field_types, names(&["text", "int", "text"]));
    let refused = c.alter_type("ks", "address", AlterTypeOp::RenameField("ZIP".to_string(), "street".to_string()));
    assert_eq!(invalid(refused), "Field 'street' already exists in type 'ks.address'");
    assert_eq!(c.types[0].field_names, names(&["street", "zip", "country"]));
}

#[test]
fn table_columns_follow_the_primary_key() {
    let mut stat = def("tag", CqlType::Varchar);
    stat.is_static = true;
    let columns = vec![
        def("name", CqlType::Varchar),
        def("bucket", CqlType::Int),
        stat,
        def("id", CqlType::Int),
        def("seq", CqlType::Bigint),
    ];
    let built = build_table_columns(
        columns,
        &names(&["id"]),
        &names(&["bucket", "seq"]),
        &vec![("seq".to_string(), ClusteringOrder::Desc)],
    )
    .unwrap();
    let summary: Vec<(&str, ColumnKind, i32, ClusteringOrder)> =
        built.iter().map(|c| (c.name.as_str(), c.kind, c.position, c.clustering_order)).collect();
    assert_eq!(
        summary,
        vec![
            ("name", ColumnKind::Regular, 0, ClusteringOrder::Unordered),
            ("bucket", ColumnKind::Clustering, 0, ClusteringOrder::Asc),
            ("tag", ColumnKind::Static, 2, ClusteringOrder::Unordered),
            ("id", ColumnKind::PartitionKey, 0, ClusteringOrder::Unordered),
            ("seq", ColumnKind::Clustering, 1, ClusteringOrder::Desc),
        ]
    );
}

#[test]
fn table_columns_refuse_the_first_bad_mask() {
    let mut masked = def("name", CqlType::Varchar);
    masked.mask = Some(("mask_inner".to_string(), Err(ExecutorError::InvalidQuery("bad mask".to_string()))));
    let mut good = def("other", CqlType::Varchar);
    good.mask = Some(("mask_default".to_string(), Ok(vec![])));
    let result = build_table_columns(vec![good, masked], &names(&["other"]), &vec![], &vec![]);
    assert!(matches!(result, Err(ExecutorError::InvalidQuery(m)) if m == "bad mask"));
}

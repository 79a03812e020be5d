use cassandra_server::describe::{describe, DescribeTarget, KeyspaceListing};
use cassandra_server::ddl::{
    column_render_rank, function_signature, render_aggregate_ddl, render_clustering_order, render_function_ddl,
    render_keyspace_ddl, render_primary_key, render_table_ddl, render_type_ddl,
    short_strategy_name, AggregateDdl, ClusteringOrder, ColumnKind, FunctionDdl, KeyspaceDdl,
    TableColumnDdl, TableDdl, TypeDdl, udf_arg_signature,
};

fn s(x: &str) -> String {
    x.to_string()
}

fn keyspace_named(name: &str) -> KeyspaceDdl {
    KeyspaceDdl {
        name: s(name),
        strategy_class: s("SimpleStrategy"),
        options: vec![(s("replication_factor"), s("1"))],
        durable_writes: true,
        comment: String::new(),
    }
}

#[test]
fn strategy_names() {
    assert_eq!(short_strategy_name("org.apache.cassandra.locator.SimpleStrategy"), "SimpleStrategy");
    assert_eq!(short_strategy_name("NetworkTopologyStrategy"), "NetworkTopologyStrategy");
    assert_eq!(short_strategy_name("a.b."), "");
}

#[test]
fn keyspace_ddl() {
    let ks = KeyspaceDdl {
        name: s("ks"),
        strategy_class: s("org.apache.cassandra.locator.SimpleStrategy"),
        options: vec![(s("replication_factor"), s("3"))],
        durable_writes: true,
        comment: s("it's mine"),
    };
    assert_eq!(
        render_keyspace_ddl(&ks),
        "CREATE KEYSPACE ks WITH replication = {'class': 'SimpleStrategy', 'replication_factor': '3'} AND durable_writes = true;\nCOMMENT ON KEYSPACE ks IS 'it''s mine';"
    );
}

#[test]
fn function_and_aggregate_ddl() {
    let f = FunctionDdl {
        keyspace: s("ks"),
        name: s("plus"),
        arg_names: vec![s("a"), s("b")],
        arg_types: vec![s("int"), s("int")],
        called_on_null_input: false,
        return_type: s("int"),
        language: s("java"),
        body: s("return a + b;"),
    };
    assert_eq!(
        render_function_ddl(&f),
        "CREATE FUNCTION ks.plus(a int, b int)\n    RETURNS NULL ON NULL INPUT RETURNS int\n    LANGUAGE java\n    AS 'return a + b;';"
    );
    let a = AggregateDdl {
        keyspace: s("ks"),
        name: s("total"),
        arg_types: vec![s("int")],
        sfunc: s("plus"),
        state_type: s("int"),
        finalfunc: Some(s("done")),
        return_type: s("bigint"),
        initcond: Some(s("0")),
    };
    assert_eq!(
        render_aggregate_ddl(&a),
        "CREATE AGGREGATE ks.total(int)\n    SFUNC plus\n    STYPE int\n    FINALFUNC done\n    RETURNS bigint\n    INITCOND 0;"
    );
    let plain = AggregateDdl { finalfunc: None, return_type: s("int"), initcond: None, ..a };
    assert_eq!(render_aggregate_ddl(&plain), "CREATE AGGREGATE ks.total(int)\n    SFUNC plus\n    STYPE int;");
}

#[test]
fn type_ddl() {
    let t = TypeDdl {
        keyspace: s("ks"),
        name: s("address"),
        field_names: vec![s("street"), s("zip")],
        field_types: vec![s("text"), s("int")],
        comment: String::new(),
        field_comments: vec![(s("zip"), s("postal"))],
    };
    assert_eq!(
        render_type_ddl(&t),
        "CREATE TYPE ks.address (\n    street text,\n    zip int\n);\nCOMMENT ON FIELD ks.address.zip IS 'postal';"
    );
}

#[test]
fn primary_key_and_clustering() {
    assert_eq!(render_primary_key(&[s("pk")], &[s("ck")]), "pk, ck");
    assert_eq!(render_primary_key(&[s("a"), s("b")], &[]), "(a, b)");
    assert_eq!(
        render_clustering_order(&[(s("c1"), ClusteringOrder::Asc), (s("c2"), ClusteringOrder::Unordered), (s("c3"), ClusteringOrder::Desc)]),
        "c1 ASC, c3 DESC"
    );
    assert_eq!(column_render_rank(ColumnKind::Static), 2);
}

#[test]
fn table_ddl_sorts_columns() {
    let col = |name: &str, data_type: &str, kind: ColumnKind, position: i32| TableColumnDdl {
        name: s(name),
        data_type: s(data_type),
        kind,
        position,
        comment: String::new(),
    };
    let mut v = col("v", "text", ColumnKind::Regular, -1);
    v.comment = s("value");
    let t = TableDdl {
        keyspace: s("ks"),
        name: s("events"),
        columns: vec![
            v,
            col("ck", "int", ColumnKind::Clustering, 0),
            col("a", "int", ColumnKind::Regular, -1),
            col("st", "int", ColumnKind::Static, -1),
            col("pk", "int", ColumnKind::PartitionKey, 0),
        ],
        partition_key: vec![s("pk")],
        clustering: vec![(s("ck"), ClusteringOrder::Desc)],
    };
    assert_eq!(
        render_table_ddl(&t),
        "CREATE TABLE ks.events (\n    pk int,\n    ck int,\n    st int static,\n    a int,\n    v text,\n    PRIMARY KEY (pk, ck)\n) WITH CLUSTERING ORDER BY (ck DESC);\nCOMMENT ON COLUMN ks.events.v IS 'value';"
    );
}

#[test]
fn function_signatures() {
    assert_eq!(function_signature("ks.f", &[s("int"), s("text")]), "ks.f(int, text)");
    assert_eq!(function_signature("now", &[]), "now()");
}

#[test]
fn generated_argument_names() {
    let args = udf_arg_signature(&[s("int"), s("bigint"), s("text")]);
    assert_eq!(
        args,
        vec![(s("arg0"), s("int")), (s("arg1"), s("bigint")), (s("arg2"), s("text"))]
    );
    assert!(udf_arg_signature(&[]).is_empty());
}

#[test]
fn describe_table_returns_schema_ddl() {
    let col = |name: &str, data_type: &str, kind: ColumnKind| TableColumnDdl {
        name: s(name),
        data_type: s(data_type),
        kind,
        position: 0,
        comment: String::new(),
    };
    let t = TableDdl {
        keyspace: s("ks"),
        name: s("events"),
        columns: vec![
            col("id", "int", ColumnKind::PartitionKey),
            col("bucket", "int", ColumnKind::Clustering),
            col("name", "text", ColumnKind::Regular),
        ],
        partition_key: vec![s("id")],
        clustering: vec![(s("bucket"), ClusteringOrder::Asc)],
    };
    let listing = KeyspaceListing {
        keyspace: keyspace_named("ks"),
        types: vec![],
        functions: vec![],
        aggregates: vec![],
        tables: vec![t],
    };
    let ddl = describe(&[listing], &DescribeTarget::Table(Some(s("ks")), s("events"))).unwrap();
    assert!(ddl.contains("CREATE TABLE ks.events"));
    assert!(ddl.contains("id int"));
    assert!(ddl.contains("bucket int"));
    assert!(ddl.contains("name text") || ddl.contains("name varchar"));
    assert!(ddl.contains("PRIMARY KEY (id, bucket)"));
}

#[test]
fn describe_schema_objects_return_metadata_ddl() {
    let t = TypeDdl {
        keyspace: s("ks"),
        name: s("address"),
        field_names: vec![s("street"), s("zip")],
        field_types: vec![s("text"), s("int")],
        comment: String::new(),
        field_comments: vec![],
    };
    let f = FunctionDdl {
        keyspace: s("ks"),
        name: s("identity_for_describe"),
        arg_names: vec![s("value")],
        arg_types: vec![s("int")],
        called_on_null_input: false,
        return_type: s("int"),
        language: s("java"),
        body: s("return value;"),
    };
    let a = AggregateDdl {
        keyspace: s("ks"),
        name: s("sum_for_describe"),
        arg_types: vec![s("int")],
        sfunc: s("state_for_describe"),
        state_type: s("int"),
        finalfunc: None,
        return_type: s("int"),
        initcond: Some(s("0")),
    };
    let listings = [KeyspaceListing {
        keyspace: keyspace_named("ks"),
        types: vec![t],
        functions: vec![f],
        aggregates: vec![a],
        tables: vec![],
    }];
    let type_ddl = describe(&listings, &DescribeTarget::Type(Some(s("ks")), s("address"))).unwrap();
    assert!(type_ddl.contains("CREATE TYPE ks.address"));
    assert!(type_ddl.contains("street text"));
    let function_ddl = describe(&listings, &DescribeTarget::Function(Some(s("ks")), s("identity_for_describe"))).unwrap();
    assert!(function_ddl.contains("CREATE FUNCTION ks.identity_for_describe"));
    assert!(function_ddl.contains("RETURNS int"));
    let aggregate_ddl = describe(&listings, &DescribeTarget::Aggregate(Some(s("ks")), s("sum_for_describe"))).unwrap();
    assert!(aggregate_ddl.contains("CREATE AGGREGATE ks.sum_for_describe(int)"));
    assert!(aggregate_ddl.contains("SFUNC state_for_describe"));
    assert!(aggregate_ddl.contains("INITCOND 0"));
}

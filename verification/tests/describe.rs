use cassandra_server::ddl::{render_keyspace_ddl, render_type_ddl, KeyspaceDdl, TypeDdl};
use cassandra_server::describe::{describe, DescribeTarget, KeyspaceListing};
use cassandra_server::error::ExecutorError;

fn s(x: &str) -> String {
    x.to_string()
}

fn keyspace(name: &str) -> KeyspaceDdl {
    KeyspaceDdl {
        name: s(name),
        strategy_class: s("org.apache.cassandra.locator.SimpleStrategy"),
        options: vec![(s("replication_factor"), s("1"))],
        durable_writes: true,
        comment: String::new(),
    }
}

fn address() -> TypeDdl {
    TypeDdl {
        keyspace: s("ks"),
        name: s("address"),
        field_names: vec![s("street"), s("zip")],
        field_types: vec![s("text"), s("int")],
        comment: String::new(),
        field_comments: vec![],
    }
}

fn listings() -> Vec<KeyspaceListing> {
    vec![
        KeyspaceListing { keyspace: keyspace("ks"), types: vec![address()], functions: vec![], aggregates: vec![], tables: vec![] },
        KeyspaceListing { keyspace: keyspace("other"), types: vec![], functions: vec![], aggregates: vec![], tables: vec![] },
    ]
}

#[test]
fn describe_keyspace_joins_its_statements_with_blank_lines() {
    let text = describe(&listings(), &DescribeTarget::Keyspace(s("ks"))).unwrap();
    let expected = format!("{}\n\n{}", render_keyspace_ddl(&keyspace("ks")), render_type_ddl(&address()));
    assert_eq!(text, expected);
    assert!(text.starts_with("CREATE KEYSPACE ks WITH replication = {'class': 'SimpleStrategy', 'replication_factor': '1'}"));
}

#[test]
fn describe_full_schema_ends_every_statement_with_a_blank_line() {
    let text = describe(&listings(), &DescribeTarget::FullSchema).unwrap();
    let expected = format!(
        "{}\n\n{}\n\n{}\n\n",
        render_keyspace_ddl(&keyspace("ks")),
        render_type_ddl(&address()),
        render_keyspace_ddl(&keyspace("other"))
    );
    assert_eq!(text, expected);
    assert_eq!(describe(&[], &DescribeTarget::FullSchema).unwrap(), "");
}

#[test]
fn describe_reports_missing_objects() {
    match describe(&listings(), &DescribeTarget::Keyspace(s("nope"))) {
        Err(ExecutorError::InvalidQuery(m)) => assert_eq!(m, "Keyspace 'nope' not found"),
        other => panic!("unexpected {:?}", other),
    }
    match describe(&listings(), &DescribeTarget::Table(None, s("events"))) {
        Err(ExecutorError::TableNotFound(k, t)) => {
            assert_eq!(k, "system");
            assert_eq!(t, "events");
        },
        other => panic!("unexpected {:?}", other),
    }
    match describe(&listings(), &DescribeTarget::Type(Some(s("other")), s("address"))) {
        Err(ExecutorError::InvalidQuery(m)) => assert_eq!(m, "Type 'other.address' not found"),
        other => panic!("unexpected {:?}", other),
    }
    match describe(&listings(), &DescribeTarget::Function(Some(s("ks")), s("f"))) {
        Err(ExecutorError::InvalidQuery(m)) => assert_eq!(m, "Function 'ks.f' not found"),
        other => panic!("unexpected {:?}", other),
    }
    match describe(&listings(), &DescribeTarget::Aggregate(None, s("agg"))) {
        Err(ExecutorError::InvalidQuery(m)) => assert_eq!(m, "Aggregate 'system.agg' not found"),
        other => panic!("unexpected {:?}", other),
    }
}

#[test]
fn describe_cluster_and_other_targets() {
    assert_eq!(
        describe(&listings(), &DescribeTarget::Cluster).unwrap(),
        "Cluster: cassandra\nPartitioner: Murmur3Partitioner"
    );
    assert_eq!(describe(&listings(), &DescribeTarget::Generic(s("INDEXES"))).unwrap(), "DESCRIBE INDEXES;");
}

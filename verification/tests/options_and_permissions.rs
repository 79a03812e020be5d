use cassandra_server::error::ExecutorError;
use cassandra_server::options::{
    apply_table_option, is_vector_index, parse_table_bool_option, parse_table_i32_option, parse_table_map_option,
    parse_transactional_mode_option, TableParams, TransactionalMode,
};
use std::collections::BTreeMap;
use cassandra_server::permissions::{
    ast_resource_to_security, parse_permission, requested_permissions, role_network_permissions,
    Permission, Resource, RoleAccess, SecurityResource,
};

fn invalid(e: ExecutorError) -> String {
    match e {
        ExecutorError::InvalidQuery(m) => m,
        other => panic!("unexpected error {:?}", other),
    }
}

#[test]
fn integer_options() {
    assert_eq!(parse_table_i32_option("gc_grace_seconds", "864000").unwrap(), 864000);
    assert_eq!(parse_table_i32_option("k", "-5").unwrap(), -5);
    assert_eq!(parse_table_i32_option("k", "+7").unwrap(), 7);
    assert_eq!(
        invalid(parse_table_i32_option("gc_grace_seconds", "ten").unwrap_err()),
        "Invalid integer value 'ten' for option 'gc_grace_seconds'"
    );
    assert!(parse_table_i32_option("k", "2147483648").is_err());
    assert_eq!(parse_table_i32_option("k", "-2147483648").unwrap(), i32::MIN);
    assert!(parse_table_i32_option("k", " 1").is_err());
}

#[test]
fn boolean_options() {
    assert!(parse_table_bool_option("cdc", "TRUE").unwrap());
    assert!(!parse_table_bool_option("cdc", "false").unwrap());
    assert_eq!(
        invalid(parse_table_bool_option("cdc", "yes").unwrap_err()),
        "Invalid boolean value 'yes' for option 'cdc'"
    );
}

#[test]
fn transactional_modes() {
    assert_eq!(parse_transactional_mode_option("Accord").unwrap(), TransactionalMode::Accord);
    assert_eq!(parse_transactional_mode_option("off").unwrap(), TransactionalMode::Off);
    assert_eq!(parse_transactional_mode_option("MIXED").unwrap(), TransactionalMode::Mixed);
    assert_eq!(parse_transactional_mode_option("paxos").unwrap(), TransactionalMode::Paxos);
    assert_eq!(
        invalid(parse_transactional_mode_option("full").unwrap_err()),
        "Invalid transactional_mode value 'full'"
    );
}

#[test]
fn map_options() {
    let m = parse_table_map_option("caching", "{\"keys\": \"ALL\", \"rows_per_partition\": \"NONE\"}").unwrap();
    assert_eq!(m.get("keys").map(String::as_str), Some("ALL"));
    assert_eq!(m.len(), 2);
    assert_eq!(
        invalid(parse_table_map_option("caching", "{\"keys\": 1}").unwrap_err()),
        "Invalid map value '{\"keys\": 1}' for option 'caching'"
    );
}

#[test]
fn permissions() {
    assert_eq!(parse_permission("select").unwrap(), Permission::Select);
    assert_eq!(parse_permission("Select_Masked").unwrap(), Permission::SelectMasked);
    assert_eq!(invalid(parse_permission("fly").unwrap_err()), "Unknown permission 'fly'");
    assert_eq!(requested_permissions(&["ALL".to_string()]).unwrap(), None);
    assert_eq!(
        requested_permissions(&["modify".to_string(), "Execute".to_string()]).unwrap(),
        Some(vec![Permission::Modify, Permission::Execute])
    );
    assert_eq!(
        invalid(requested_permissions(&["select".to_string(), "x".to_string(), "y".to_string()]).unwrap_err()),
        "Unknown permission 'x'"
    );
    assert_eq!(requested_permissions(&["select".to_string(), "all".to_string()]).unwrap(), None);
}

#[test]
fn network_permissions() {
    assert!(role_network_permissions(None, None).is_none());
    let dcs = RoleAccess::Restricted(vec!["dc1".to_string()]);
    let p = role_network_permissions(Some(&dcs), None).unwrap();
    assert!(!p.all_datacenters);
    assert_eq!(p.allowed_datacenters, vec!["dc1".to_string()]);
    assert!(p.all_cidrs);
    assert!(p.allowed_cidrs.is_empty());
    let p = role_network_permissions(None, Some(&RoleAccess::All)).unwrap();
    assert!(p.all_datacenters && p.all_cidrs);
}

#[test]
fn statement_resources_map_to_authorizer_resources() {
    assert_eq!(ast_resource_to_security(&Resource::AllKeyspaces).unwrap(), SecurityResource::Root);
    assert_eq!(ast_resource_to_security(&Resource::AllMBeans).unwrap(), SecurityResource::Root);
    assert_eq!(
        ast_resource_to_security(&Resource::FunctionInKeyspace("ks".to_string())).unwrap(),
        SecurityResource::Keyspace("ks".to_string())
    );
    assert_eq!(
        ast_resource_to_security(&Resource::Table { keyspace: None, table: "t".to_string() }).unwrap(),
        SecurityResource::Table { keyspace: "system".to_string(), table: "t".to_string() }
    );
    assert_eq!(
        ast_resource_to_security(&Resource::Function { keyspace: Some("ks".to_string()), name: "f".to_string() })
            .unwrap(),
        SecurityResource::Function { keyspace: "ks".to_string(), name: "f".to_string() }
    );
    assert_eq!(
        ast_resource_to_security(&Resource::MBeanPattern("org.*".to_string())).unwrap(),
        SecurityResource::Jmx("org.*".to_string())
    );
    assert_eq!(
        ast_resource_to_security(&Resource::Role("r".to_string())).unwrap(),
        SecurityResource::Role("r".to_string())
    );
}

fn base_params() -> TableParams {
    TableParams {
        gc_grace_seconds: 864000,
        default_time_to_live: 0,
        min_index_interval: 128,
        max_index_interval: 2048,
        memtable_flush_period_in_ms: 0,
        comment: String::new(),
        allow_auto_snapshot: true,
        incremental_backups: true,
        compaction: BTreeMap::new(),
        compression: BTreeMap::new(),
        caching: BTreeMap::new(),
        read_repair: "BLOCKING".to_string(),
        speculative_retry: "99p".to_string(),
        additional_write_policy: "99p".to_string(),
        memtable: "default".to_string(),
        fast_path: "keyspace".to_string(),
        transactional_migration_from: "none".to_string(),
        auto_repair: BTreeMap::new(),
        cdc: false,
        transactional_mode: TransactionalMode::Off,
    }
}

#[test]
fn table_options_set_their_parameter() {
    let mut p = base_params();
    apply_table_option(&mut p, "gc_grace_seconds", "10").unwrap();
    apply_table_option(&mut p, "comment", "it's a table").unwrap();
    apply_table_option(&mut p, "cdc", "TRUE").unwrap();
    apply_table_option(&mut p, "caching", r#"{"keys": "ALL"}"#).unwrap();
    apply_table_option(&mut p, "transactional_mode", "accord").unwrap();
    let mut expected = base_params();
    expected.gc_grace_seconds = 10;
    expected.comment = "it's a table".to_string();
    expected.cdc = true;
    expected.caching.insert("keys".to_string(), "ALL".to_string());
    expected.transactional_mode = TransactionalMode::Accord;
    assert_eq!(p, expected);
}

#[test]
fn refused_table_options_leave_parameters_unchanged() {
    let mut p = base_params();
    match apply_table_option(&mut p, "default_time_to_live", "soon") {
        Err(ExecutorError::InvalidQuery(m)) => {
            assert_eq!(m, "Invalid integer value 'soon' for option 'default_time_to_live'")
        }
        other => panic!("unexpected {:?}", other),
    }
    match apply_table_option(&mut p, "no_such_option", "1") {
        Err(ExecutorError::InvalidQuery(m)) => assert_eq!(m, "Unsupported table option 'no_such_option'"),
        other => panic!("unexpected {:?}", other),
    }
    match apply_table_option(&mut p, "compaction", "[1]") {
        Err(ExecutorError::InvalidQuery(m)) => {
            assert_eq!(m, "Invalid map value '[1]' for option 'compaction'")
        }
        other => panic!("unexpected {:?}", other),
    }
    assert_eq!(p, base_params());
}

#[test]
fn vector_index_detection_requires_sai_dimensions() {
    let opt = |k: &str, v: &str| (k.to_string(), v.to_string());
    assert!(is_vector_index(&[
        opt("class_name", "org.apache.cassandra.index.sai.StorageAttachedIndex"),
        opt("vector_dimensions", "3"),
    ]));
    assert!(!is_vector_index(&[opt("class_name", "StorageAttachedIndex")]));
    assert!(!is_vector_index(&[opt("class_name", "SASIIndex"), opt("vector_dimensions", "3")]));
    assert!(!is_vector_index(&[opt("vector_dimensions", "3")]));
}

#[test]
fn create_table_applies_table_options() {
    let options = [
        ("comment", "created with params"),
        ("default_time_to_live", "120"),
        ("transactional_mode", "accord"),
        ("compression", r#"{"class":"LZ4Compressor","chunk_length_in_kb":"32"}"#),
        ("caching", r#"{"keys":"ALL","rows_per_partition":"NONE"}"#),
        ("speculative_retry", "99p"),
        ("additional_write_policy", "NEVER"),
        ("allow_auto_snapshot", "false"),
        ("incremental_backups", "true"),
        ("memtable_flush_period_in_ms", "250"),
        ("memtable", "default"),
        ("fast_path", "read_local"),
        ("transactional_migration_from", "paxos"),
        ("auto_repair", r#"{"enabled":"true"}"#),
        ("cdc", "true"),
    ];
    let mut params = base_params();
    for (key, value) in options {
        apply_table_option(&mut params, key, value).unwrap();
    }
    assert_eq!(params.comment, "created with params");
    assert_eq!(params.default_time_to_live, 120);
    assert_eq!(params.transactional_mode, TransactionalMode::Accord);
    assert_eq!(params.compression.get("chunk_length_in_kb").map(String::as_str), Some("32"));
    assert_eq!(params.caching.get("keys").map(String::as_str), Some("ALL"));
    assert_eq!(params.speculative_retry, "99p");
    assert_eq!(params.additional_write_policy, "NEVER");
    assert!(!params.allow_auto_snapshot);
    assert!(params.incremental_backups);
    assert_eq!(params.memtable_flush_period_in_ms, 250);
    assert_eq!(params.memtable, "default");
    assert_eq!(params.fast_path, "read_local");
    assert_eq!(params.transactional_migration_from, "paxos");
    assert_eq!(params.auto_repair.get("enabled").map(String::as_str), Some("true"));
    assert!(params.cdc);
}

#[test]
fn create_and_alter_role_apply_network_access_options() {
    let created = role_network_permissions(
        Some(&RoleAccess::Restricted(vec!["dc1".to_string()])),
        Some(&RoleAccess::All),
    )
    .unwrap();
    assert!(!created.all_datacenters);
    assert_eq!(created.allowed_datacenters, vec!["dc1"]);
    assert!(created.all_cidrs);
    let altered = role_network_permissions(
        Some(&RoleAccess::All),
        Some(&RoleAccess::Restricted(vec!["region1".to_string(), "region2".to_string()])),
    )
    .unwrap();
    assert!(altered.all_datacenters);
    assert!(!altered.all_cidrs);
    assert_eq!(altered.allowed_cidrs, vec!["region1", "region2"]);
}

use cassandra_server::guardrails::{
    check_allow_filtering, check_create_index, check_create_table, check_drop_keyspace,
    check_page_size, check_select_guardrails, check_truncate, GuardrailResult, GuardrailsConfig,
    ThresholdGuardrail,
};
use cassandra_server::write_guardrails::{
    check_write_guardrails, CellMutation, CollectionOp, CoordinatedMutation, MutationRow,
    WriteGuardrails,
};

#[test]
fn create_table_allowed() {
    let config = GuardrailsConfig::default();
    let result = check_create_table(&config, 5, 10);
    assert!(!result.is_rejected());
}

#[test]
fn create_table_rejected_too_many_tables() {
    let mut config = GuardrailsConfig::default();
    config.tables_per_keyspace = ThresholdGuardrail {
        warn_threshold: Some(5),
        fail_threshold: Some(10),
    };
    let result = check_create_table(&config, 10, 5);
    assert!(result.is_rejected());
}

#[test]
fn create_table_warned_columns() {
    let mut config = GuardrailsConfig::default();
    config.columns_per_table = ThresholdGuardrail {
        warn_threshold: Some(20),
        fail_threshold: Some(100),
    };
    let result = check_create_table(&config, 1, 25);
    assert!(matches!(result, GuardrailResult::Warned(_)));
}

#[test]
fn create_index_rejected() {
    let mut config = GuardrailsConfig::default();
    config.secondary_indexes_per_table = ThresholdGuardrail {
        warn_threshold: Some(3),
        fail_threshold: Some(5),
    };
    let result = check_create_index(&config, 5);
    assert!(result.is_rejected());
}

#[test]
fn allow_filtering_disabled() {
    let mut config = GuardrailsConfig::default();
    config.allow_filtering_enabled = false;
    let result = check_allow_filtering(&config);
    assert!(result.is_rejected());
}

#[test]
fn truncate_disabled() {
    let mut config = GuardrailsConfig::default();
    config.truncate_enabled = false;
    let result = check_truncate(&config);
    assert!(result.is_rejected());
}

#[test]
fn page_size_check() {
    let mut config = GuardrailsConfig::default();
    config.page_size = ThresholdGuardrail {
        warn_threshold: Some(1000),
        fail_threshold: Some(5000),
    };
    assert!(!check_page_size(&config, 500).is_rejected());
    assert!(matches!(
        check_page_size(&config, 1000),
        GuardrailResult::Warned(_)
    ));
    assert!(check_page_size(&config, 5000).is_rejected());
}

#[test]
fn drop_keyspace_allowed_by_default() {
    let config = GuardrailsConfig::default();
    assert!(!check_drop_keyspace(&config).is_rejected());
}

#[test]
fn drop_keyspace_disabled() {
    let mut config = GuardrailsConfig::default();
    config.drop_keyspace_enabled = false;
    assert!(check_drop_keyspace(&config).is_rejected());
}

fn test_mutation() -> CoordinatedMutation {
    CoordinatedMutation::simple(
        "ks".to_string(),
        "tbl".to_string(),
        b"pk1".to_vec(),
        vec![MutationRow {
            clustering_key: vec![],
            cells: vec![CellMutation {
                column: "col1".to_string(),
                value: Some(b"val".to_vec()),
                timestamp: 1000,
                ttl: 0,
                is_tombstone: false,
                collection_op: None,
            }],
            is_tombstone: false,
            has_range_tombstone: false,
        }],
        1000,
    )
}

/// A size estimate for a mutation: its key, column names and values, plus
/// eight bytes of timestamp per cell.
fn estimated_size(m: &CoordinatedMutation) -> usize {
    let mut size = m.keyspace.len() + m.table.len() + m.partition_key.len();
    for row in &m.rows {
        size += row.clustering_key.len();
        for cell in &row.cells {
            size += cell.column.len() + 8;
            if let Some(v) = &cell.value {
                size += v.len();
            }
        }
    }
    size
}

#[test]
fn write_guardrail_allowed() {
    let guardrails = WriteGuardrails::default();
    let m = test_mutation();
    let result = check_write_guardrails(&guardrails, &m, estimated_size(&m));
    assert!(!result.is_rejected());
    assert!(matches!(result, GuardrailResult::Allowed));
}

#[test]
fn write_guardrail_rejects_oversized_mutation() {
    let guardrails = WriteGuardrails {
        max_mutation_size: 10, // very small
        ..Default::default()
    };
    let m = test_mutation();
    let result = check_write_guardrails(&guardrails, &m, estimated_size(&m));
    assert!(result.is_rejected());
}

#[test]
fn write_guardrail_warns_tombstones() {
    let guardrails = WriteGuardrails {
        tombstone_warn_threshold: 0,
        ..Default::default()
    };
    let mut m = test_mutation();
    m.rows[0].is_tombstone = true;
    let result = check_write_guardrails(&guardrails, &m, estimated_size(&m));
    assert!(matches!(result, GuardrailResult::Warned(_)));
}

#[test]
fn write_guardrail_warns_columns() {
    let guardrails = WriteGuardrails {
        columns_per_query_warn: 0,
        ..Default::default()
    };
    let m = test_mutation();
    let result = check_write_guardrails(&guardrails, &m, estimated_size(&m));
    assert!(matches!(result, GuardrailResult::Warned(_)));
}

#[test]
fn write_guardrail_warns_collection_size() {
    let guardrails = WriteGuardrails {
        collection_size_warn: 1,
        ..Default::default()
    };
    let mut m = test_mutation();
    m.rows[0].cells[0].collection_op = Some(CollectionOp::Append(vec![
        b"a".to_vec(),
        b"b".to_vec(),
    ]));
    let result = check_write_guardrails(&guardrails, &m, estimated_size(&m));
    assert!(matches!(result, GuardrailResult::Warned(_)));
}

#[test]
fn select_guardrail_allowed() {
    let config = GuardrailsConfig::default();
    let result = check_select_guardrails(&config, false, 5);
    assert!(!result.is_rejected());
}

#[test]
fn select_guardrail_rejects_allow_filtering() {
    let mut config = GuardrailsConfig::default();
    config.allow_filtering_enabled = false;
    let result = check_select_guardrails(&config, true, 5);
    assert!(result.is_rejected());
}

#[test]
fn select_guardrail_allows_when_no_filtering() {
    let mut config = GuardrailsConfig::default();
    config.allow_filtering_enabled = false;
    // allow_filtering=false in the query, so the guardrail does not trigger
    let result = check_select_guardrails(&config, false, 5);
    assert!(!result.is_rejected());
}

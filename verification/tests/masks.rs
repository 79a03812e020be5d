use cassandra_server::error::ExecutorError;
use cassandra_server::masks::{
    check_masked_column_access, mask_function_arg_types, mask_metadata_arg_to_bytes,
    masked_restricted_columns,
};
use cassandra_server::types::CqlType;

fn strings(v: &[&str]) -> Vec<String> {
    v.iter().map(|s| s.to_string()).collect()
}

#[test]
fn masking_function_argument_types() {
    assert_eq!(mask_function_arg_types("mask_null", &CqlType::Int, &[]), Some(vec![CqlType::Int]));
    assert_eq!(
        mask_function_arg_types("MASK_HASH", &CqlType::Varchar, &strings(&["SHA-256"])),
        Some(vec![CqlType::Varchar, CqlType::Varchar])
    );
    assert_eq!(
        mask_function_arg_types("mask_inner", &CqlType::Varchar, &strings(&["1", "2"])),
        Some(vec![CqlType::Varchar, CqlType::Int, CqlType::Int])
    );
    assert_eq!(
        mask_function_arg_types("Mask_Outer", &CqlType::Varchar, &strings(&["1", "2", "#"])),
        Some(vec![CqlType::Varchar, CqlType::Int, CqlType::Int, CqlType::Varchar])
    );
    assert_eq!(
        mask_function_arg_types("mask_replace", &CqlType::Bigint, &strings(&["0"])),
        Some(vec![CqlType::Bigint, CqlType::Bigint])
    );
    assert_eq!(mask_function_arg_types("mask_inner", &CqlType::Varchar, &strings(&["1"])), None);
    assert_eq!(mask_function_arg_types("mask_default", &CqlType::Int, &strings(&["1"])), None);
    assert_eq!(mask_function_arg_types("no_such_mask", &CqlType::Int, &[]), None);
}

#[test]
fn stored_mask_arguments_encode_by_type() {
    assert_eq!(mask_metadata_arg_to_bytes("NULL", &CqlType::Int), Some(None));
    assert_eq!(mask_metadata_arg_to_bytes("abc", &CqlType::Varchar), Some(Some(b"abc".to_vec())));
    assert_eq!(mask_metadata_arg_to_bytes("42", &CqlType::Int), Some(Some(vec![0, 0, 0, 42])));
    assert_eq!(mask_metadata_arg_to_bytes("-1", &CqlType::Tinyint), Some(Some(vec![0xff])));
    assert_eq!(mask_metadata_arg_to_bytes("128", &CqlType::Tinyint), None);
    assert_eq!(mask_metadata_arg_to_bytes("-2", &CqlType::Smallint), Some(Some(vec![0xff, 0xfe])));
    assert_eq!(
        mask_metadata_arg_to_bytes("+5", &CqlType::Bigint),
        Some(Some(5i64.to_be_bytes().to_vec()))
    );
    assert_eq!(mask_metadata_arg_to_bytes("true", &CqlType::Boolean), Some(Some(vec![1])));
    assert_eq!(mask_metadata_arg_to_bytes("false", &CqlType::Boolean), Some(Some(vec![0])));
    assert_eq!(mask_metadata_arg_to_bytes("True", &CqlType::Boolean), None);
    assert_eq!(mask_metadata_arg_to_bytes("0xCAFE", &CqlType::Blob), Some(Some(vec![0xca, 0xfe])));
    assert_eq!(mask_metadata_arg_to_bytes("cafe", &CqlType::Blob), None);
    assert_eq!(mask_metadata_arg_to_bytes("+7", &CqlType::Date), Some(Some(vec![0, 0, 0, 7])));
    assert_eq!(mask_metadata_arg_to_bytes("-0", &CqlType::Date), None);
    assert_eq!(
        mask_metadata_arg_to_bytes("4294967295", &CqlType::Date),
        Some(Some(vec![0xff, 0xff, 0xff, 0xff]))
    );
    assert_eq!(mask_metadata_arg_to_bytes("-129", &CqlType::Varint), Some(Some(vec![0xff, 0x7f])));
    assert_eq!(mask_metadata_arg_to_bytes("1_000", &CqlType::Varint), Some(Some(vec![0x03, 0xe8])));
    assert_eq!(mask_metadata_arg_to_bytes("12a", &CqlType::Varint), None);
    assert_eq!(
        mask_metadata_arg_to_bytes("00112233-4455-6677-8899-aabbccddeeff", &CqlType::Uuid),
        Some(Some(vec![0x00, 0x11, 0x22, 0x33, 0x44, 0x55, 0x66, 0x77, 0x88, 0x99, 0xaa, 0xbb, 0xcc, 0xdd, 0xee, 0xff]))
    );
    assert_eq!(mask_metadata_arg_to_bytes("x", &CqlType::Inet), None);
}

#[test]
fn restricted_masked_columns_sorted_without_repeats() {
    let masked = strings(&["b", "a", "k"]);
    let relations = strings(&["b", "TOKEN", "x", "a", "b"]);
    let pk = strings(&["k", "k2"]);
    assert_eq!(masked_restricted_columns(&masked, &relations, &pk), strings(&["a", "b", "k"]));
    assert!(masked_restricted_columns(&masked, &strings(&["x"]), &pk).is_empty());
}

#[test]
fn mask_argument_types_refuse_invalid_definitions() {
    assert_eq!(mask_function_arg_types("mask_unknown", &CqlType::Varchar, &[]), None);
    let inner = mask_function_arg_types("mask_inner", &CqlType::Varchar, &strings(&["not-int", "1"])).unwrap();
    assert_eq!(mask_metadata_arg_to_bytes("not-int", &inner[1]), None);
    let replace = mask_function_arg_types("mask_replace", &CqlType::Int, &strings(&["not-an-int"])).unwrap();
    assert_eq!(replace[1], CqlType::Int);
    assert_eq!(mask_metadata_arg_to_bytes("not-an-int", &replace[1]), None);
}

#[test]
fn masked_filter_column_needs_select_masked_permission() {
    let restricted = masked_restricted_columns(&strings(&["bucket"]), &strings(&["bucket"]), &strings(&["id"]));
    assert_eq!(restricted, strings(&["bucket"]));
    match check_masked_column_access(Some("analyst"), false, false, "ks", "events", &restricted) {
        Err(ExecutorError::InvalidQuery(m)) => {
            assert!(m.contains("no UNMASK nor SELECT_MASKED") && m.contains("[bucket]"));
            assert_eq!(
                m,
                "User analyst has no UNMASK nor SELECT_MASKED permission on table ks.events, cannot query masked columns [bucket]"
            );
        }
        other => panic!("unexpected {:?}", other),
    }
    assert_eq!(check_masked_column_access(Some("analyst"), false, true, "ks", "events", &restricted).unwrap(), true);
    assert_eq!(check_masked_column_access(Some("analyst"), true, false, "ks", "events", &restricted).unwrap(), false);
    assert_eq!(check_masked_column_access(None, false, false, "ks", "events", &restricted).unwrap(), true);
}

#[test]
fn token_relation_on_masked_key_needs_select_masked_permission() {
    let restricted = masked_restricted_columns(&strings(&["id"]), &strings(&["token"]), &strings(&["id"]));
    match check_masked_column_access(Some("analyst"), false, false, "ks", "events", &restricted) {
        Err(ExecutorError::InvalidQuery(m)) => assert!(m.contains("no UNMASK nor SELECT_MASKED") && m.contains("[id]")),
        other => panic!("unexpected {:?}", other),
    }
}

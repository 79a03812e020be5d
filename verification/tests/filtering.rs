use cassandra_server::like::like_matches;
use cassandra_server::relations::{relation_matches, token_relation_matches, RelationOp};
use cassandra_server::tuples::{clustering_tuple_bytes, relation_tuple_columns, tuple_relation_matches};
use cassandra_server::types::{fixed_width_cql_type, is_integral_type, ColumnMetadata, CqlType};

fn int_bytes(v: i32) -> Vec<u8> {
    v.to_be_bytes().to_vec()
}

fn clustering_ints() -> Vec<ColumnMetadata> {
    vec![
        ColumnMetadata { name: "ck1".to_string(), column_type: CqlType::Int },
        ColumnMetadata { name: "ck2".to_string(), column_type: CqlType::Int },
    ]
}

#[test]
fn token_relation_filters_partition_key_bytes() {
    let token: i64 = -4_069_959_284_402_364_209;
    let other: i64 = 7_206_811_787_543_227_154;
    assert!(token_relation_matches(RelationOp::Eq, token, &[token]));
    assert!(!token_relation_matches(RelationOp::Eq, other, &[token]));
}

#[test]
fn tuple_relation_filters_clustering_bytes() {
    let cols = clustering_ints();
    let key = [1i32.to_be_bytes(), 2i32.to_be_bytes()].concat();
    let eq = [int_bytes(1), int_bytes(2)].concat();
    let one_one = [int_bytes(1), int_bytes(1)].concat();
    assert!(tuple_relation_matches(&cols, "(ck1,ck2)", RelationOp::Eq, &key, &[eq]));
    assert!(tuple_relation_matches(&cols, "(ck1,ck2)", RelationOp::Gt, &key, &[one_one.clone()]));
    assert!(!tuple_relation_matches(&cols, "(ck1,ck2)", RelationOp::Lt, &key, &[one_one]));
}

#[test]
fn tuple_relation_on_single_column_is_ignored() {
    let cols = clustering_ints();
    assert!(tuple_relation_matches(&cols, "ck1", RelationOp::Lt, &[], &Vec::<Vec<u8>>::new()));
    assert!(tuple_relation_matches(&cols, "(ck1)", RelationOp::Eq, &[], &Vec::<Vec<u8>>::new()));
}

#[test]
fn tuple_relation_with_unknown_column_fails() {
    let cols = clustering_ints();
    let key = [int_bytes(1), int_bytes(2)].concat();
    assert!(!tuple_relation_matches(&cols, "(ck1, other)", RelationOp::Eq, &key, &[key.clone()]));
}

#[test]
fn relation_tuple_columns_splits_and_trims() {
    assert_eq!(
        relation_tuple_columns(" ( ck1 , ck2 ) "),
        Some(vec!["ck1".to_string(), "ck2".to_string()])
    );
    assert_eq!(relation_tuple_columns("(a,,b)"), Some(vec!["a".to_string(), "b".to_string()]));
    assert_eq!(relation_tuple_columns("(a)"), None);
    assert_eq!(relation_tuple_columns("a, b"), None);
    assert_eq!(relation_tuple_columns("(a, b"), None);
}

#[test]
fn clustering_tuple_bytes_selects_segments() {
    let cols = vec![
        ColumnMetadata { name: "a".to_string(), column_type: CqlType::Int },
        ColumnMetadata { name: "b".to_string(), column_type: CqlType::Smallint },
        ColumnMetadata { name: "c".to_string(), column_type: CqlType::Boolean },
    ];
    let key = vec![0, 0, 0, 7, 0, 9, 1];
    assert_eq!(
        clustering_tuple_bytes(&cols, &["C".to_string(), "a".to_string()], &key),
        Some(vec![1, 0, 0, 0, 7])
    );
    assert_eq!(
        clustering_tuple_bytes(&cols, &["A".to_string(), "B".to_string(), "c".to_string()], &key),
        Some(key.clone())
    );
    assert_eq!(clustering_tuple_bytes(&cols, &["b".to_string(), "a".to_string()], &key[..6]), None);
    assert_eq!(clustering_tuple_bytes(&cols, &["d".to_string()], &key), None);
}

#[test]
fn clustering_tuple_bytes_needs_fixed_widths() {
    let cols = vec![
        ColumnMetadata { name: "a".to_string(), column_type: CqlType::Varchar },
        ColumnMetadata { name: "b".to_string(), column_type: CqlType::Int },
    ];
    let key = vec![b'x', 0, 0, 0, 1];
    assert_eq!(clustering_tuple_bytes(&cols, &["b".to_string()], &key), None);
}

#[test]
fn fixed_widths_and_integral_types() {
    assert_eq!(fixed_width_cql_type(&CqlType::Boolean), Some(1));
    assert_eq!(fixed_width_cql_type(&CqlType::Smallint), Some(2));
    assert_eq!(fixed_width_cql_type(&CqlType::Date), Some(4));
    assert_eq!(fixed_width_cql_type(&CqlType::Timestamp), Some(8));
    assert_eq!(fixed_width_cql_type(&CqlType::Timeuuid), Some(16));
    assert_eq!(fixed_width_cql_type(&CqlType::Varchar), None);
    assert!(is_integral_type(&CqlType::Varint));
    assert!(is_integral_type(&CqlType::Counter));
    assert!(!is_integral_type(&CqlType::Double));
}

#[test]
fn like_patterns() {
    assert!(like_matches("cassandra", "cass%"));
    assert!(like_matches("cassandra", "%andra"));
    assert!(like_matches("cassandra", "%ss%"));
    assert!(like_matches("cassandra", "c_ssandra"));
    assert!(!like_matches("cassandra", "c_sandra"));
    assert!(like_matches("", "%"));
    assert!(like_matches("anything", "%"));
    assert!(!like_matches("", "_"));
    assert!(like_matches("abc", "abc"));
    assert!(!like_matches("abc", "abd"));
    assert!(like_matches("héllo", "h_llo"));
}

#[test]
fn relation_equality_and_order() {
    let int = Some(&CqlType::Int);
    let cur = int_bytes(5);
    let five = Some(int_bytes(5));
    let six = Some(int_bytes(6));
    assert!(relation_matches(RelationOp::Eq, int, Some(cur.as_slice()), &[five.clone()]));
    assert!(!relation_matches(RelationOp::Neq, int, Some(cur.as_slice()), &[five.clone()]));
    assert!(relation_matches(RelationOp::Neq, int, None, &[five.clone()]));
    assert!(relation_matches(RelationOp::Lt, int, Some(cur.as_slice()), &[six.clone()]));
    assert!(relation_matches(RelationOp::Lte, int, Some(cur.as_slice()), &[five.clone()]));
    assert!(!relation_matches(RelationOp::Gt, int, Some(cur.as_slice()), &[six.clone()]));
    assert!(relation_matches(RelationOp::Gte, int, Some(cur.as_slice()), &[five.clone()]));
    assert!(!relation_matches(RelationOp::Lt, int, None, &[six.clone()]));
    assert!(!relation_matches(RelationOp::Eq, int, Some(cur.as_slice()), &[None]));
}

#[test]
fn relation_in_contains_and_like() {
    let text = Some(&CqlType::Varchar);
    let cur = b"node-db-1".to_vec();
    assert!(relation_matches(RelationOp::In, text, Some(cur.as_slice()), &[Some(b"x".to_vec()), Some(cur.clone())]));
    assert!(!relation_matches(RelationOp::In, text, Some(cur.as_slice()), &[Some(b"x".to_vec()), None]));
    assert!(relation_matches(RelationOp::Contains, text, Some(cur.as_slice()), &[Some(b"db".to_vec())]));
    assert!(!relation_matches(RelationOp::Contains, text, Some(cur.as_slice()), &[Some(Vec::new())]));
    assert!(relation_matches(RelationOp::ContainsKey, text, Some(cur.as_slice()), &[None, Some(b"-1".to_vec())]));
    assert!(relation_matches(RelationOp::Like, text, Some(cur.as_slice()), &[Some(b"node%".to_vec())]));
    assert!(!relation_matches(RelationOp::Like, text, Some(&[0xffu8, 0xfe][..]), &[Some(b"%".to_vec())]));
}

#[test]
fn token_relation_operators() {
    assert!(token_relation_matches(RelationOp::Lt, 1, &[2]));
    assert!(!token_relation_matches(RelationOp::Gt, 1, &[2]));
    assert!(token_relation_matches(RelationOp::Gte, 2, &[2]));
    assert!(token_relation_matches(RelationOp::Neq, 2, &[]));
    assert!(!token_relation_matches(RelationOp::Eq, 2, &[]));
    assert!(token_relation_matches(RelationOp::In, 3, &[1, 2, 3]));
    assert!(!token_relation_matches(RelationOp::Like, 3, &[3]));
}

#[test]
fn contains_relations_use_collection_element_types() {
    let tags: Vec<u8> = [
        &2i32.to_be_bytes()[..],
        &4i32.to_be_bytes(),
        &7i32.to_be_bytes(),
        &4i32.to_be_bytes(),
        &9i32.to_be_bytes(),
    ]
    .concat();
    let attrs: Vec<u8> = [&1i32.to_be_bytes()[..], &1i32.to_be_bytes(), b"k", &4i32.to_be_bytes(), &11i32.to_be_bytes()]
        .concat();
    let list = CqlType::ListOf(Box::new(CqlType::Int), false);
    let map = CqlType::MapOf(Box::new(CqlType::Varchar), Box::new(CqlType::Int), false);
    assert!(relation_matches(RelationOp::Contains, Some(&list), Some(&tags), &[Some(int_bytes(7))]));
    assert!(relation_matches(RelationOp::ContainsKey, Some(&map), Some(&attrs), &[Some(b"k".to_vec())]));
}

#[test]
fn range_relations_order_integers_by_signed_value() {
    let int = Some(&CqlType::Int);
    let minus_one = int_bytes(-1);
    let one = Some(int_bytes(1));
    assert!(relation_matches(RelationOp::Lt, int, Some(minus_one.as_slice()), &[one.clone()]));
    assert!(!relation_matches(RelationOp::Gt, int, Some(minus_one.as_slice()), &[one.clone()]));
    assert!(relation_matches(RelationOp::Lte, int, Some(minus_one.as_slice()), &[Some(int_bytes(-1))]));
    let big = Some(&CqlType::Bigint);
    let low = i64::MIN.to_be_bytes().to_vec();
    assert!(relation_matches(RelationOp::Lt, big, Some(low.as_slice()), &[Some(0i64.to_be_bytes().to_vec())]));
    let varint = Some(&CqlType::Varint);
    assert!(relation_matches(RelationOp::Lt, varint, Some(&[0xffu8][..]), &[Some(vec![0x01, 0x00, 0x00, 0x00, 0x00, 0x00, 0x00, 0x00, 0x00])]));
    assert!(relation_matches(RelationOp::Gt, varint, Some(&[0x01u8, 0x00][..]), &[Some(vec![0x7f])]));
    assert!(relation_matches(RelationOp::Lt, varint, Some(&[0x80u8, 0x00, 0x00, 0x00, 0x00, 0x00, 0x00, 0x00, 0x00][..]), &[Some(vec![0x80])]));
}

#[test]
fn range_relations_order_floats_by_value() {
    let float = Some(&CqlType::Float);
    let neg = (-2.5f32).to_be_bytes().to_vec();
    let pos = Some(1.0f32.to_be_bytes().to_vec());
    assert!(relation_matches(RelationOp::Lt, float, Some(neg.as_slice()), &[pos.clone()]));
    let neg_small = (-1.0f32).to_be_bytes().to_vec();
    assert!(relation_matches(RelationOp::Gt, float, Some(neg_small.as_slice()), &[Some(neg.clone())]));
    let minus_zero = (-0.0f32).to_be_bytes().to_vec();
    assert!(relation_matches(RelationOp::Lt, float, Some(minus_zero.as_slice()), &[Some(0.0f32.to_be_bytes().to_vec())]));
    let nan = f32::NAN.to_be_bytes().to_vec();
    assert!(relation_matches(RelationOp::Gt, float, Some(nan.as_slice()), &[Some(f32::INFINITY.to_be_bytes().to_vec())]));
    let double = Some(&CqlType::Double);
    let d = (-3.0f64).to_be_bytes().to_vec();
    assert!(relation_matches(RelationOp::Lt, double, Some(d.as_slice()), &[Some(2.0f64.to_be_bytes().to_vec())]));
}

#[test]
fn range_relations_order_text_by_bytes() {
    let text = Some(&CqlType::Varchar);
    assert!(relation_matches(RelationOp::Lt, text, Some(&b"apple"[..]), &[Some(b"banana".to_vec())]));
    assert!(relation_matches(RelationOp::Gt, text, Some(&[0xffu8][..]), &[Some(vec![0x01])]));
    assert!(relation_matches(RelationOp::Lt, None, Some(&b"ab"[..]), &[Some(b"b".to_vec())]));
}

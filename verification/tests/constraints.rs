use cassandra_server::constraints::{
    compare_constraint_value, compare_ordering, compare_regexp_constraint,
    constraint_function_length, constraint_integer_value, validate_json_constraint_value,
    validate_unary_constraint, ConstraintRelationOp, check_column_constraint, ColumnConstraint, ConstraintCheck,
    NumericCheck,
};
use cassandra_server::error::ExecutorError;
use cassandra_server::types::{ColumnMetadata, CqlType};
use std::cmp::Ordering;

fn message(r: Result<impl std::fmt::Debug, ExecutorError>) -> String {
    match r {
        Err(ExecutorError::InvalidQuery(m)) => m,
        other => panic!("unexpected {:?}", other),
    }
}

fn text_column(name: &str) -> ColumnMetadata {
    ColumnMetadata { name: name.to_string(), column_type: CqlType::Varchar }
}

#[test]
fn orderings() {
    assert!(compare_ordering(Ordering::Equal, ConstraintRelationOp::Eq));
    assert!(compare_ordering(Ordering::Less, ConstraintRelationOp::NotEq));
    assert!(compare_ordering(Ordering::Less, ConstraintRelationOp::Lte));
    assert!(!compare_ordering(Ordering::Greater, ConstraintRelationOp::Lte));
    assert!(compare_ordering(Ordering::Equal, ConstraintRelationOp::Gte));
    assert!(!compare_ordering(Ordering::Less, ConstraintRelationOp::Gt));
}

#[test]
fn regexp_constraints() {
    assert!(compare_regexp_constraint(b"abc123", &CqlType::Varchar, "[a-z]+[0-9]+", ConstraintRelationOp::Eq).unwrap());
    assert!(!compare_regexp_constraint(b"abc123x", &CqlType::Varchar, "[a-z]+[0-9]+", ConstraintRelationOp::Eq).unwrap());
    assert!(compare_regexp_constraint(b"xyz", &CqlType::Ascii, "a.*", ConstraintRelationOp::NotEq).unwrap());
    assert_eq!(
        message(compare_regexp_constraint(b"x", &CqlType::Varchar, "x", ConstraintRelationOp::Lt)),
        "regexp CHECK constraint only supports = and != operators, got Lt"
    );
    assert_eq!(
        message(compare_regexp_constraint(b"x", &CqlType::Int, "x", ConstraintRelationOp::Eq)),
        "regexp CHECK constraint only supports text and ascii columns"
    );
    assert!(message(compare_regexp_constraint(b"x", &CqlType::Varchar, "(", ConstraintRelationOp::Eq))
        .starts_with("Invalid regexp CHECK constraint pattern '(': "));
}

#[test]
fn json_constraints() {
    let col = text_column("doc");
    assert!(validate_json_constraint_value(&col, b"{\"a\": [1, 2]}").is_ok());
    assert!(message(validate_json_constraint_value(&col, b"{oops")).starts_with("Column 'doc' violates CHECK json: "));
    assert!(message(validate_json_constraint_value(&col, &[0xff])).starts_with("Column 'doc' violates CHECK json: "));
    let int_col = ColumnMetadata { name: "n".to_string(), column_type: CqlType::Int };
    assert_eq!(
        message(validate_json_constraint_value(&int_col, b"1")),
        "json CHECK constraint only supports text and ascii columns"
    );
}

#[test]
fn unary_constraints() {
    let col = text_column("name");
    let written = vec![("name".to_string(), Some(b"ada".to_vec()))];
    let nulled = vec![("name".to_string(), None)];
    let other = vec![("other".to_string(), Some(b"x".to_vec()))];
    assert!(validate_unary_constraint(&col, "NOT_NULL", &[], &written, false).is_ok());
    assert_eq!(
        message(validate_unary_constraint(&col, "not null", &[], &nulled, false)),
        "Column 'name' violates CHECK NOT NULL"
    );
    assert!(validate_unary_constraint(&col, "not_null", &[], &other, false).is_ok());
    assert_eq!(
        message(validate_unary_constraint(&col, "not_null", &[], &other, true)),
        "Column 'name' violates CHECK NOT NULL"
    );
    assert_eq!(
        message(validate_unary_constraint(&col, "json", &["x".to_string()], &written, false)),
        "CHECK constraint function 'json' does not accept arguments"
    );
    assert_eq!(
        message(validate_unary_constraint(&col, "upper", &[], &written, false)),
        "Unsupported CHECK constraint unary function 'upper'"
    );
    assert!(validate_unary_constraint(&col, "json", &[], &nulled, true).is_ok());
}

#[test]
fn scalar_comparisons() {
    assert!(compare_constraint_value(&[1], &CqlType::Boolean, "true", ConstraintRelationOp::Eq).unwrap());
    assert!(compare_constraint_value(&[0], &CqlType::Boolean, "true", ConstraintRelationOp::Lt).unwrap());
    assert_eq!(
        message(compare_constraint_value(&[1], &CqlType::Boolean, "TRUE", ConstraintRelationOp::Eq)),
        "Invalid boolean CHECK constraint value 'TRUE'"
    );
    assert!(compare_constraint_value(b"apple", &CqlType::Varchar, "banana", ConstraintRelationOp::Lt).unwrap());
    assert!(compare_constraint_value(b"b", &CqlType::Ascii, "a", ConstraintRelationOp::Gte).unwrap());
    assert!(compare_constraint_value(&[0x61, 0x62], &CqlType::Blob, "ab", ConstraintRelationOp::Eq).unwrap());
    assert!(compare_constraint_value(&[0x61], &CqlType::Blob, "ab", ConstraintRelationOp::Lt).unwrap());
}

#[test]
fn integers_for_numeric_constraints() {
    assert_eq!(constraint_integer_value(&[0xfe], &CqlType::Tinyint), Some(-2));
    assert_eq!(constraint_integer_value(&[0x01, 0x00, 0xff], &CqlType::Smallint), Some(256));
    assert_eq!(constraint_integer_value(&[0x00, 0x01], &CqlType::Int), None);
    assert_eq!(constraint_integer_value(&(-9i64).to_be_bytes(), &CqlType::Timestamp), Some(-9));
    assert_eq!(constraint_integer_value(&[0xff], &CqlType::Varint), Some(255));
    assert_eq!(constraint_integer_value(&[], &CqlType::Varint), Some(0));
    assert_eq!(constraint_integer_value(&[1], &CqlType::Double), None);
}

#[test]
fn constraint_lengths() {
    assert_eq!(constraint_function_length("LENGTH", "héllo".as_bytes(), &CqlType::Varchar), Some(5));
    assert_eq!(constraint_function_length("length", "héllo".as_bytes(), &CqlType::Blob), Some(6));
    assert_eq!(constraint_function_length("octet_length", "héllo".as_bytes(), &CqlType::Varchar), Some(6));
    assert_eq!(constraint_function_length("size", b"x", &CqlType::Varchar), None);
}

fn table_columns() -> Vec<ColumnMetadata> {
    vec![
        ColumnMetadata { name: "id".to_string(), column_type: CqlType::Int },
        ColumnMetadata { name: "name".to_string(), column_type: CqlType::Varchar },
    ]
}

fn write(entries: &[(&str, Option<&[u8]>)]) -> Vec<(String, Option<Vec<u8>>)> {
    entries.iter().map(|(k, v)| (k.to_string(), v.map(|b| b.to_vec()))).collect()
}

#[test]
fn write_constraints_decide_without_floating_point() {
    let cols = table_columns();
    let name = &cols[1];
    let values = write(&[("id", Some(&[0, 0, 0, 7])), ("name", None)]);
    assert_eq!(
        message(check_column_constraint(&cols, name, &ColumnConstraint::NotNull, &values, false)),
        "Column 'name' violates CHECK NOT NULL"
    );
    let scalar = ColumnConstraint::Scalar { column: "name".to_string(), op: ConstraintRelationOp::Eq, term: "bob".to_string() };
    assert!(matches!(check_column_constraint(&cols, name, &scalar, &values, true), Ok(ConstraintCheck::Passed)));
    let values = write(&[("name", Some(b"ada"))]);
    assert_eq!(
        message(check_column_constraint(&cols, name, &scalar, &values, false)),
        "Column 'name' violates CHECK name Eq bob"
    );
    let unknown = ColumnConstraint::Scalar { column: "age".to_string(), op: ConstraintRelationOp::Gt, term: "1".to_string() };
    assert_eq!(
        message(check_column_constraint(&cols, name, &unknown, &write(&[("age", Some(&[1]))]), false)),
        "CHECK constraint references unknown column 'age'"
    );
    assert!(matches!(check_column_constraint(&cols, name, &unknown, &values, false), Ok(ConstraintCheck::Passed)));
}

#[test]
fn write_constraints_hand_back_numeric_comparisons() {
    let cols = table_columns();
    let values = write(&[("id", Some(&[0, 0, 0, 7])), ("name", Some(b"ada"))]);
    let id_gt = ColumnConstraint::Scalar { column: "id".to_string(), op: ConstraintRelationOp::Gt, term: "3".to_string() };
    match check_column_constraint(&cols, &cols[0], &id_gt, &values, false).unwrap() {
        ConstraintCheck::Compare { check: NumericCheck::Value { actual, column_type }, op, term, violation } => {
            assert_eq!(actual, vec![0, 0, 0, 7]);
            assert_eq!(column_type, CqlType::Int);
            assert_eq!(op, ConstraintRelationOp::Gt);
            assert_eq!(term, "3");
            assert_eq!(violation, "Column 'id' violates CHECK id Gt 3");
        }
        other => panic!("unexpected {:?}", other),
    }
    let length = ColumnConstraint::Function {
        name: "LENGTH".to_string(),
        args: vec![],
        op: ConstraintRelationOp::Lt,
        term: "10".to_string(),
    };
    match check_column_constraint(&cols, &cols[1], &length, &values, false).unwrap() {
        ConstraintCheck::Compare { check: NumericCheck::Length(n), violation, .. } => {
            assert_eq!(n, 3);
            assert_eq!(violation, "Column 'name' violates CHECK LENGTH() Lt 10");
        }
        other => panic!("unexpected {:?}", other),
    }
    let odd = ColumnConstraint::Function { name: "digits".to_string(), args: vec![], op: ConstraintRelationOp::Eq, term: "1".to_string() };
    assert_eq!(
        message(check_column_constraint(&cols, &cols[1], &odd, &values, false)),
        "Unsupported CHECK constraint function 'digits'"
    );
    let regexp = ColumnConstraint::Function {
        name: "regexp".to_string(),
        args: vec!["name".to_string()],
        op: ConstraintRelationOp::Eq,
        term: "^b".to_string(),
    };
    assert_eq!(
        message(check_column_constraint(&cols, &cols[0], &regexp, &values, false)),
        "Column 'id' violates CHECK regexp() Eq ^b"
    );
}

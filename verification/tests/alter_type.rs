use cassandra_server::alter_type::{alter_user_type, AlterTypeOp};
use cassandra_server::ddl::TypeDdl;
use cassandra_server::schema::{ChangeTarget, ChangeType, SchemaCatalog, SchemaOutcome};
use cassandra_server::error::ExecutorError;
use cassandra_server::types::CqlTypeName;

fn address() -> TypeDdl {
    TypeDdl {
        keyspace: "ks".to_string(),
        name: "address".to_string(),
        field_names: vec!["street".to_string(), "zip".to_string()],
        field_types: vec!["text".to_string(), "int".to_string()],
        comment: String::new(),
        field_comments: vec![],
    }
}

fn refusal(r: Result<(), ExecutorError>) -> String {
    match r {
        Err(ExecutorError::InvalidQuery(m)) => m,
        other => panic!("expected an invalid query, got {:?}", other),
    }
}

fn simple(name: &str) -> CqlTypeName {
    CqlTypeName::Simple(name.to_string())
}

#[test]
fn alter_type_updates_udt_metadata() {
    let mut catalog = SchemaCatalog::new();
    catalog.create_keyspace("ks", vec![], true, false).unwrap();
    catalog
        .create_type(
            "ks",
            "address",
            vec![("street".to_string(), "text".to_string()), ("zip".to_string(), "int".to_string())],
            false,
        )
        .unwrap();
    catalog
        .alter_type("ks", "address", AlterTypeOp::AddField("country".to_string(), simple("text")))
        .unwrap();
    catalog
        .alter_type("ks", "address", AlterTypeOp::RenameField("zip".to_string(), "postal_code".to_string()))
        .unwrap();
    let result = catalog
        .alter_type("ks", "address", AlterTypeOp::AlterFieldType("postal_code".to_string(), simple("bigint")))
        .unwrap();
    assert!(matches!(
        result,
        SchemaOutcome::Changed { change_type: ChangeType::Updated, target: ChangeTarget::Type, .. }
    ));

    let ddl = catalog.describe_type(Some("ks"), "address").unwrap();
    assert!(ddl.contains("street text"));
    assert!(ddl.contains("country text"));
    assert!(ddl.contains("postal_code bigint"));
    assert!(!ddl.contains("zip int"));
}

#[test]
fn describe_type_names_missing_types() {
    let catalog = SchemaCatalog::new();
    assert!(matches!(
        catalog.describe_type(None, "address"),
        Err(ExecutorError::InvalidQuery(m)) if m == "Type 'system.address' not found"
    ));
}

#[test]
fn alter_type_rejects_existing_and_missing_fields() {
    let mut udt = address();
    assert_eq!(
        refusal(alter_user_type(&mut udt, AlterTypeOp::AddField("STREET".to_string(), simple("text")))),
        "Field 'STREET' already exists in type 'ks.address'"
    );
    assert_eq!(
        refusal(alter_user_type(
        &mut udt,
        AlterTypeOp::RenameField("city".to_string(), "town".to_string()),
    )),
        "Field 'city' does not exist in type 'ks.address'"
    );
    assert_eq!(
        refusal(alter_user_type(
        &mut udt,
        AlterTypeOp::RenameField("zip".to_string(), "street".to_string()),
    )),
        "Field 'street' already exists in type 'ks.address'"
    );
    assert_eq!(
        refusal(alter_user_type(
        &mut udt,
        AlterTypeOp::CommentField("city".to_string(), "where".to_string()),
    )),
        "Field 'city' does not exist in type 'ks.address'"
    );
    assert_eq!(udt.field_names, vec!["street".to_string(), "zip".to_string()]);
    assert_eq!(udt.field_types, vec!["text".to_string(), "int".to_string()]);
}

#[test]
fn alter_type_renames_in_other_case_and_carries_the_comment() {
    let mut udt = address();
    alter_user_type(
        &mut udt,
        AlterTypeOp::CommentField("ZIP".to_string(), "postal area".to_string()),
    )
    .unwrap();
    assert_eq!(udt.field_comments, vec![("zip".to_string(), "postal area".to_string())]);
    alter_user_type(&mut udt, AlterTypeOp::RenameField("zip".to_string(), "Zip".to_string())).unwrap();
    assert_eq!(udt.field_names, vec!["street".to_string(), "Zip".to_string()]);
    assert_eq!(udt.field_comments, vec![("Zip".to_string(), "postal area".to_string())]);
    alter_user_type(&mut udt, AlterTypeOp::CommentType("where mail goes".to_string())).unwrap();
    assert_eq!(udt.comment, "where mail goes");
}

#[test]
fn alter_type_renders_collection_field_types() {
    let mut udt = address();
    alter_user_type(
        &mut udt,
        AlterTypeOp::AddField(
            "lines".to_string(),
            CqlTypeName::Frozen(Box::new(CqlTypeName::ListOf(Box::new(simple("text"))))),
        ),
    )
    .unwrap();
    assert_eq!(udt.field_types[2], "frozen<list<text>>");
}

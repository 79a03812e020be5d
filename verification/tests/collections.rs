use cassandra_server::collections::{
    append_unique, apply_collection_assignment, decode_existing_collection, remove_elements,
    remove_map_keys, upsert_map_entries, CollectionChange, CollectionValue,
};
use cassandra_server::error::ExecutorError;
use cassandra_server::types::CqlType;

fn int_bytes(v: i32) -> Vec<u8> {
    v.to_be_bytes().to_vec()
}

fn text(s: &str) -> Vec<u8> {
    s.as_bytes().to_vec()
}

fn list_int() -> CqlType {
    CqlType::ListOf(Box::new(CqlType::Int), false)
}

fn set_text() -> CqlType {
    CqlType::SetOf(Box::new(CqlType::Varchar), false)
}

fn map_text_int() -> CqlType {
    CqlType::MapOf(Box::new(CqlType::Varchar), Box::new(CqlType::Int), false)
}

#[test]
fn update_collection_assignments_merge_with_existing_values() {
    let vals = apply_collection_assignment(
        "vals",
        &list_int(),
        "list<int>",
        CollectionChange::PrependElements(vec![int_bytes(1)]),
        Some(CollectionValue::ListItems(vec![int_bytes(2)])),
    )
    .unwrap();
    let tags = apply_collection_assignment(
        "tags",
        &set_text(),
        "set<text>",
        CollectionChange::AppendElements(vec![text("b")]),
        Some(CollectionValue::SetItems(vec![text("a")])),
    )
    .unwrap();
    let attrs = apply_collection_assignment(
        "attrs",
        &map_text_int(),
        "map<text, int>",
        CollectionChange::MapPut(text("y"), int_bytes(2)),
        Some(CollectionValue::MapEntries(vec![(text("x"), int_bytes(1))])),
    )
    .unwrap();

    let vals = apply_collection_assignment(
        "vals",
        &list_int(),
        "list<int>",
        CollectionChange::AppendElements(vec![int_bytes(3)]),
        Some(vals),
    )
    .unwrap();
    let tags = apply_collection_assignment(
        "tags",
        &set_text(),
        "set<text>",
        CollectionChange::Remove(vec![text("a")]),
        Some(tags),
    )
    .unwrap();
    let attrs = apply_collection_assignment(
        "attrs",
        &map_text_int(),
        "map<text, int>",
        CollectionChange::Remove(vec![text("x")]),
        Some(attrs),
    )
    .unwrap();

    assert_eq!(vals, CollectionValue::ListItems(vec![int_bytes(1), int_bytes(2), int_bytes(3)]));
    assert_eq!(tags, CollectionValue::SetItems(vec![text("b")]));
    assert_eq!(attrs, CollectionValue::MapEntries(vec![(text("y"), int_bytes(2))]));
}

#[test]
fn missing_collections_start_empty() {
    let v = decode_existing_collection(None, &list_int(), "list<int>").unwrap();
    assert_eq!(v, CollectionValue::ListItems(vec![]));
    let v = decode_existing_collection(None, &map_text_int(), "map<text, int>").unwrap();
    assert_eq!(v, CollectionValue::MapEntries(vec![]));
    match decode_existing_collection(None, &CqlType::Int, "int") {
        Err(ExecutorError::InvalidQuery(m)) => {
            assert_eq!(m, "Collection assignment is not valid for type int")
        }
        other => panic!("unexpected {:?}", other),
    }
    let added = apply_collection_assignment(
        "tags",
        &set_text(),
        "set<text>",
        CollectionChange::AppendElements(vec![text("a"), text("a")]),
        None,
    )
    .unwrap();
    assert_eq!(added, CollectionValue::SetItems(vec![text("a")]));
}

#[test]
fn assignments_that_do_not_fit_the_column_are_rejected() {
    match apply_collection_assignment(
        "vals",
        &list_int(),
        "list<int>",
        CollectionChange::MapPut(int_bytes(0), int_bytes(1)),
        Some(CollectionValue::ListItems(vec![int_bytes(2)])),
    ) {
        Err(ExecutorError::InvalidQuery(m)) => assert_eq!(
            m,
            "Collection assignment is not valid for column 'vals' of type list<int>"
        ),
        other => panic!("unexpected {:?}", other),
    }
    match apply_collection_assignment(
        "n",
        &CqlType::Int,
        "int",
        CollectionChange::AppendElements(vec![int_bytes(1)]),
        Some(CollectionValue::ListItems(vec![])),
    ) {
        Err(ExecutorError::InvalidQuery(m)) => {
            assert_eq!(m, "Collection assignment is not valid for column 'n' of type int")
        }
        other => panic!("unexpected {:?}", other),
    }
}

#[test]
fn set_union_keeps_first_occurrence_order() {
    let mut values = vec![text("a"), text("b")];
    append_unique(&mut values, vec![text("c"), text("a"), text("c"), text("d")]);
    assert_eq!(values, vec![text("a"), text("b"), text("c"), text("d")]);
}

#[test]
fn map_upsert_replaces_and_appends() {
    let mut entries = vec![(text("x"), int_bytes(1)), (text("y"), int_bytes(2))];
    upsert_map_entries(&mut entries, vec![(text("y"), int_bytes(20)), (text("z"), int_bytes(3))]);
    assert_eq!(entries, vec![(text("x"), int_bytes(1)), (text("y"), int_bytes(20)), (text("z"), int_bytes(3))]);
    let put_then_lookup = entries.iter().find(|(k, _)| *k == text("z")).map(|(_, v)| v.clone());
    assert_eq!(put_then_lookup, Some(int_bytes(3)));
}

#[test]
fn removal_drops_every_occurrence() {
    let kept = remove_elements(vec![int_bytes(1), int_bytes(2), int_bytes(1), int_bytes(3)], &vec![int_bytes(1)]);
    assert_eq!(kept, vec![int_bytes(2), int_bytes(3)]);
    let kept = remove_map_keys(
        vec![(text("x"), int_bytes(1)), (text("y"), int_bytes(2))],
        &vec![text("y"), text("w")],
    );
    assert_eq!(kept, vec![(text("x"), int_bytes(1))]);
    let prepended = apply_collection_assignment(
        "vals",
        &list_int(),
        "list<int>",
        CollectionChange::PrependElements(vec![int_bytes(7), int_bytes(8)]),
        Some(CollectionValue::ListItems(vec![int_bytes(9)])),
    )
    .unwrap();
    assert_eq!(prepended, CollectionValue::ListItems(vec![int_bytes(7), int_bytes(8), int_bytes(9)]));
}

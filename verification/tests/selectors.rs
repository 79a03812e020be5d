use cassandra_server::selectors::{
    aggregate_selector_name, count_selector_counts_non_null, is_count_selector,
    selector_output_name, selector_result_type, user_aggregate_selector_parts,
    user_function_selector_parts, Selector,
};
use cassandra_server::types::{render_ast_cql_type_name, ColumnMetadata, CqlType, CqlTypeName};

fn col(n: &str) -> Selector {
    Selector::Column(n.to_string())
}

fn func(n: &str, args: Vec<Selector>) -> Selector {
    Selector::Function(n.to_string(), args)
}

fn alias(s: Selector, a: &str) -> Selector {
    Selector::Alias { selector: Box::new(s), alias: a.to_string() }
}

#[test]
fn output_names_of_selectors() {
    assert_eq!(selector_output_name(&col("v")), "v");
    assert_eq!(selector_output_name(&alias(col("v"), "w")), "w");
    assert_eq!(selector_output_name(&Selector::Count), "count");
    assert_eq!(selector_output_name(&func("COUNT_ROWS", vec![])), "count");
    assert_eq!(selector_output_name(&func("Now", vec![])), "now(*)");
    assert_eq!(
        selector_output_name(&func("Max", vec![col("a"), func("ABS", vec![col("b")])])),
        "max(a, abs(b))"
    );
    let cast = Selector::Cast {
        selector: Box::new(col("v")),
        target: Some((CqlType::Bigint, "bigint".to_string())),
    };
    assert_eq!(selector_output_name(&cast), "cast(v as bigint)");
    let unknown = Selector::Cast { selector: Box::new(col("v")), target: None };
    assert_eq!(selector_output_name(&unknown), "cast(v as unknown)");
    let wt = Selector::WritetimeOrTtl("writetime".to_string(), "v".to_string());
    assert_eq!(selector_output_name(&wt), "writetime(v)");
}

#[test]
fn aggregate_selectors_are_recognised_through_aliases() {
    assert_eq!(aggregate_selector_name(&Selector::Count).as_deref(), Some("count"));
    assert_eq!(aggregate_selector_name(&func("CountRows", vec![])).as_deref(), Some("count"));
    assert_eq!(aggregate_selector_name(&alias(func("SUM", vec![col("v")]), "s")).as_deref(), Some("sum"));
    assert_eq!(aggregate_selector_name(&func("abs", vec![col("v")])), None);
    let cast = Selector::Cast { selector: Box::new(func("sum", vec![col("v")])), target: None };
    assert_eq!(aggregate_selector_name(&cast), None);
    assert!(is_count_selector(&alias(Selector::Count, "n")));
    assert!(!is_count_selector(&func("count", vec![col("v")])));
    assert!(count_selector_counts_non_null(&alias(func("COUNT", vec![col("v")]), "n")));
    assert!(!count_selector_counts_non_null(&func("count", vec![])));
    assert!(!count_selector_counts_non_null(&Selector::Count));
}

#[test]
fn function_parts_under_aliases() {
    let s = alias(func("my_fn", vec![col("a"), col("b")]), "x");
    let (name, args) = user_function_selector_parts(&s).unwrap();
    assert_eq!(name, "my_fn");
    assert_eq!(args.len(), 2);
    let (name, _) = user_aggregate_selector_parts(&s).unwrap();
    assert_eq!(name, "my_fn");
    assert!(user_function_selector_parts(&col("a")).is_none());
}

#[test]
fn type_names_render_as_cql() {
    let simple = |n: &str| Box::new(CqlTypeName::Simple(n.to_string()));
    let t = CqlTypeName::Frozen(Box::new(CqlTypeName::MapOf(
        simple("text"),
        Box::new(CqlTypeName::ListOf(simple("int"))),
    )));
    assert_eq!(render_ast_cql_type_name(&t), "frozen<map<text, list<int>>>");
    let tuple = CqlTypeName::Tuple(vec![
        CqlTypeName::Simple("int".to_string()),
        CqlTypeName::SetOf(simple("uuid")),
        CqlTypeName::Vector(simple("float"), 3),
    ]);
    assert_eq!(render_ast_cql_type_name(&tuple), "tuple<int, set<uuid>, vector<float, 3>>");
    assert_eq!(render_ast_cql_type_name(&CqlTypeName::Tuple(vec![])), "tuple<>");
}

#[test]
fn selector_result_types() {
    let cols = vec![
        ColumnMetadata { name: "a".to_string(), column_type: CqlType::Int },
        ColumnMetadata { name: "b".to_string(), column_type: CqlType::Varchar },
    ];
    assert_eq!(selector_result_type(&col("b"), &cols), Some(CqlType::Varchar));
    assert_eq!(selector_result_type(&col("zz"), &cols), None);
    assert_eq!(selector_result_type(&alias(col("a"), "x"), &cols), Some(CqlType::Int));
    assert_eq!(selector_result_type(&Selector::Count, &cols), Some(CqlType::Bigint));
    assert_eq!(selector_result_type(&func("COUNT", vec![col("b")]), &cols), Some(CqlType::Bigint));
    assert_eq!(selector_result_type(&func("sum", vec![col("a")]), &cols), Some(CqlType::Int));
    assert_eq!(selector_result_type(&func("max", vec![]), &cols), Some(CqlType::Blob));
    assert_eq!(selector_result_type(&func("abs", vec![col("a")]), &cols), None);
    let ttl = Selector::WritetimeOrTtl("TTL".to_string(), "a".to_string());
    assert_eq!(selector_result_type(&ttl, &cols), Some(CqlType::Int));
    let wt = Selector::WritetimeOrTtl("writetime".to_string(), "a".to_string());
    assert_eq!(selector_result_type(&wt, &cols), Some(CqlType::Bigint));
    let cast = Selector::Cast { selector: Box::new(col("a")), target: Some((CqlType::Double, "double".to_string())) };
    assert_eq!(selector_result_type(&cast, &cols), Some(CqlType::Double));
}

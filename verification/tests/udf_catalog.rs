use cassandra_server::error::ExecutorError;
use cassandra_server::java_udf::{CreateFunctionPlan, JavaCompatUdfExecutor};
use cassandra_server::udf_value::UdfValue;
use cassandra_server::udf_catalog::{
    check_aggregate_replacement, check_function_replacement, decide_create_aggregate,
    decide_create_function, decide_drop_aggregate, decide_drop_function, AggregateEntry,
    CatalogChange, FunctionEntry, KeyspaceRoutines,
};

fn s(x: &str) -> String {
    x.to_string()
}

fn function(signature: &str, return_type: &str, called_on_null_input: bool) -> FunctionEntry {
    FunctionEntry { signature: s(signature), return_type: s(return_type), called_on_null_input }
}

fn aggregate(signature: &str, return_type: &str) -> AggregateEntry {
    AggregateEntry { signature: s(signature), return_type: s(return_type) }
}

fn routines(functions: Vec<FunctionEntry>, aggregates: Vec<AggregateEntry>) -> KeyspaceRoutines {
    KeyspaceRoutines { functions, aggregates }
}

fn message(r: Result<CatalogChange, ExecutorError>) -> String {
    match r {
        Err(ExecutorError::InvalidQuery(m)) => m,
        other => panic!("unexpected {:?}", other),
    }
}

fn store(return_type: &str, replaces: Option<&str>) -> CatalogChange {
    CatalogChange::Store { return_type: s(return_type), replaces: replaces.map(s) }
}

fn create_echo(ks: &KeyspaceRoutines, or_replace: bool, if_not_exists: bool) -> Result<CatalogChange, ExecutorError> {
    decide_create_function(Some(ks), "ks", "echo", "echo(text)", "text", false, if_not_exists, or_replace)
}

fn echo_plan(body: &str, or_replace: bool, if_not_exists: bool) -> CreateFunctionPlan {
    CreateFunctionPlan {
        keyspace: s("ks"),
        name: s("echo"),
        or_replace,
        if_not_exists,
        args: vec![(s("val"), s("text"))],
        called_on_null_input: false,
        return_type: s("text"),
        language: s("java"),
        body: s(body),
    }
}

fn run_echo(plan: &CreateFunctionPlan) -> UdfValue {
    JavaCompatUdfExecutor::new(plan).unwrap().execute(&[UdfValue::Text(s("Ada"))]).unwrap()
}

#[test]
fn create_function_respects_duplicate_flags() {
    let empty = routines(vec![], vec![]);
    assert_eq!(create_echo(&empty, false, false).unwrap(), store("text", None));
    let registered = echo_plan("return val;", false, false);
    let ks = routines(vec![function("echo(text)", "text", false)], vec![]);
    assert!(message(create_echo(&ks, false, false)).contains("already exists"));
    assert_eq!(create_echo(&ks, false, true).unwrap(), CatalogChange::Unchanged);
    assert_eq!(run_echo(&registered), UdfValue::Text(s("Ada")));
    assert_eq!(create_echo(&ks, true, false).unwrap(), store("text", Some("text")));
    let replaced = echo_plan("return val.toUpperCase();", true, false);
    assert_eq!(run_echo(&replaced), UdfValue::Text(s("ADA")));
}

#[test]
fn create_or_replace_function_validates_existing_signature_contract() {
    let ks = routines(vec![function("echo(text)", "text", false)], vec![]);
    let changed_null_directive =
        decide_create_function(Some(&ks), "ks", "echo", "echo(text)", "text", true, false, true);
    assert!(message(changed_null_directive).contains("must have CALLED ON NULL INPUT directive"));
    let changed_return_type =
        decide_create_function(Some(&ks), "ks", "echo", "echo(text)", "int", false, false, true).unwrap();
    assert_eq!(changed_return_type, store("int", Some("text")));
    match check_function_replacement("echo", "int", "text", false) {
        Err(ExecutorError::InvalidQuery(m)) => assert!(m.contains("new return type int is not compatible")),
        other => panic!("unexpected {:?}", other),
    }
    let ks = routines(vec![function("strict(text)", "text", true)], vec![]);
    let r = decide_create_function(Some(&ks), "ks", "strict", "strict(text)", "text", false, false, true);
    assert_eq!(message(r), "Function 'strict' must have RETURNS NULL ON NULL INPUT directive");
}

#[test]
fn create_or_replace_function_allows_compatible_return_type() {
    let ks = routines(vec![function("echo_text(text)", "text", false)], vec![]);
    let change =
        decide_create_function(Some(&ks), "ks", "echo_text", "echo_text(text)", "ascii", false, false, true).unwrap();
    assert_eq!(change, store("ascii", Some("text")));
    assert!(check_function_replacement("echo_text", "ascii", "text", true).is_ok());
    match check_function_replacement("echo_ascii", "text", "ascii", false) {
        Err(ExecutorError::InvalidQuery(m)) => assert_eq!(
            m,
            "Cannot replace function 'echo_ascii', the new return type text is not compatible with the return type ascii of existing function"
        ),
        other => panic!("unexpected {:?}", other),
    }
}

#[test]
fn drop_function_respects_if_exists() {
    let ks = routines(vec![], vec![]);
    match decide_drop_function(Some(&ks), "ks", "missing(text)", false) {
        Err(ExecutorError::InvalidQuery(m)) => {
            assert!(m.contains("does not exist"));
            assert_eq!(m, "Function 'ks.missing(text)' does not exist");
        }
        other => panic!("unexpected {:?}", other),
    }
    assert_eq!(decide_drop_function(Some(&ks), "ks", "missing(text)", true).unwrap(), false);
    let ks = routines(vec![function("f(text)", "text", false)], vec![]);
    assert_eq!(decide_drop_function(Some(&ks), "ks", "f(text)", false).unwrap(), true);
    assert!(matches!(
        decide_drop_function(None, "nope", "f(text)", true),
        Err(ExecutorError::KeyspaceNotFound(k)) if k == "nope"
    ));
}

#[test]
fn drop_aggregate_respects_if_exists() {
    let ks = routines(vec![], vec![]);
    match decide_drop_aggregate(Some(&ks), "ks", "missing(int)", false) {
        Err(ExecutorError::InvalidQuery(m)) => assert!(m.contains("does not exist")),
        other => panic!("unexpected {:?}", other),
    }
    assert_eq!(decide_drop_aggregate(Some(&ks), "ks", "missing(int)", true).unwrap(), false);
    let ks = routines(vec![], vec![aggregate("sum_int(int)", "int")]);
    assert_eq!(decide_drop_aggregate(Some(&ks), "ks", "sum_int(int)", false).unwrap(), true);
}

fn create_sum(
    ks: &KeyspaceRoutines,
    sfunc: &str,
    finalfunc: Option<&str>,
    or_replace: bool,
    if_not_exists: bool,
) -> Result<CatalogChange, ExecutorError> {
    decide_create_aggregate(
        Some(ks),
        "ks",
        "sum_int",
        &[s("int")],
        "int",
        sfunc,
        finalfunc,
        true,
        Ok(()),
        if_not_exists,
        or_replace,
    )
}

#[test]
fn create_aggregate_respects_duplicate_flags() {
    let functions = || vec![function("plus(int, int)", "int", false), function("plus_v2(int, int)", "int", false)];
    let ks = routines(functions(), vec![]);
    assert_eq!(create_sum(&ks, "plus", None, false, false).unwrap(), store("int", None));
    let ks = routines(functions(), vec![aggregate("sum_int(int)", "int")]);
    assert!(message(create_sum(&ks, "plus_v2", None, false, false)).contains("already exists"));
    assert_eq!(create_sum(&ks, "plus_v2", None, false, true).unwrap(), CatalogChange::Unchanged);
    assert_eq!(create_sum(&ks, "plus_v2", None, true, false).unwrap(), store("int", Some("int")));
}

#[test]
fn create_aggregate_validates_state_function() {
    let ks = routines(vec![], vec![]);
    assert!(message(create_sum(&ks, "missing_plus", None, false, false))
        .contains("State function missing_plus(int, int) doesn't exist"));
    let ks = routines(vec![function("bad_plus(int, int)", "bigint", false)], vec![]);
    assert!(message(create_sum(&ks, "bad_plus", None, false, false)).contains("return type must be the same"));
    let ks = routines(vec![], vec![aggregate("agg_plus(int, int)", "int")]);
    assert_eq!(
        message(create_sum(&ks, "agg_plus", None, false, false)),
        "State function agg_plus(int, int) isn't a scalar function"
    );
    let ks = routines(vec![function("plus(int, int)", "int", false)], vec![]);
    let no_initcond = decide_create_aggregate(
        Some(&ks), "ks", "sum_int", &[s("int")], "int", "plus", None, false, Ok(()), false, false,
    );
    assert_eq!(
        message(no_initcond),
        "Cannot create aggregate 'sum_int' without INITCOND because state function plus does not accept 'null' arguments"
    );
}

#[test]
fn create_aggregate_validates_final_function() {
    let ks = routines(vec![function("plus(int, int)", "int", false)], vec![]);
    assert!(message(create_sum(&ks, "plus", Some("missing_final"), false, false))
        .contains("Final function missing_final(int) doesn't exist"));
}

#[test]
fn create_aggregate_validates_initcond_against_state_type() {
    let ks = routines(vec![function("plus(int, int)", "int", false)], vec![]);
    let invalid_initcond = decide_create_aggregate(
        Some(&ks),
        "ks",
        "sum_int",
        &[s("int")],
        "int",
        "plus",
        None,
        true,
        Err(ExecutorError::InvalidQuery(s("Invalid value for INITCOND of type int"))),
        false,
        false,
    );
    assert!(message(invalid_initcond).contains("Invalid value for INITCOND of type int"));
    let ks = routines(vec![function("tuple_state(tuple<int, bigint>, int)", "tuple<int, bigint>", false)], vec![]);
    let tuple_initcond = decide_create_aggregate(
        Some(&ks),
        "ks",
        "mean_int",
        &[s("int")],
        "tuple<int, bigint>",
        "tuple_state",
        None,
        true,
        Ok(()),
        false,
        false,
    );
    assert_eq!(tuple_initcond.unwrap(), store("tuple<int, bigint>", None));
}

#[test]
fn create_or_replace_aggregate_validates_return_type_compatibility() {
    let functions = || vec![function("plus(int, int)", "int", false), function("finish_text(int)", "text", false)];
    let ks = routines(functions(), vec![]);
    assert_eq!(create_sum(&ks, "plus", Some("finish_text"), false, false).unwrap(), store("text", None));
    let ks = routines(functions(), vec![aggregate("sum_int(int)", "text")]);
    let replace = create_sum(&ks, "plus", None, true, false).unwrap();
    assert_eq!(replace, store("int", Some("text")));
    match check_aggregate_replacement("sum_int", "int", "text", false) {
        Err(ExecutorError::InvalidQuery(m)) => assert!(m.contains("new return type int isn't compatible")),
        other => panic!("unexpected {:?}", other),
    }
}

#[test]
fn functions_and_aggregates_share_signature_namespace() {
    let ks = routines(
        vec![function("plus(int, int)", "int", false), function("sum_int(int)", "int", false)],
        vec![],
    );
    assert!(message(create_sum(&ks, "plus", None, false, true)).contains("cannot replace a function"));
    let ks = routines(vec![function("plus(int, int)", "int", false)], vec![aggregate("sum_int(int)", "int")]);
    let function_over_aggregate =
        decide_create_function(Some(&ks), "ks", "sum_int", "sum_int(int)", "int", false, true, false);
    assert!(message(function_over_aggregate).contains("cannot replace an aggregate"));
}

use cassandra_server::java_udf::{CreateFunctionPlan, JavaCompatUdfExecutor};
use cassandra_server::udf_value::UdfValue;

fn plan(name: &str, args: Vec<(String, String)>, return_type: &str, body: &str) -> CreateFunctionPlan {
    CreateFunctionPlan {
        keyspace: "ks".to_string(),
        name: name.to_string(),
        or_replace: false,
        if_not_exists: false,
        args,
        called_on_null_input: false,
        return_type: return_type.to_string(),
        language: "java".to_string(),
        body: body.to_string(),
    }
}

fn create_java_binary_function(name: &str, cql_type: &str, body: &str) -> JavaCompatUdfExecutor {
    create_java_binary_function_with_return(name, cql_type, cql_type, body)
}

fn create_java_binary_function_with_return(
    name: &str,
    arg_type: &str,
    return_type: &str,
    body: &str,
) -> JavaCompatUdfExecutor {
    let args = vec![
        ("a".to_string(), arg_type.to_string()),
        ("b".to_string(), arg_type.to_string()),
    ];
    JavaCompatUdfExecutor::new(&plan(name, args, return_type, body)).unwrap()
}

fn create_java_unary_function_with_return(
    name: &str,
    arg_type: &str,
    return_type: &str,
    body: &str,
) -> JavaCompatUdfExecutor {
    let args = vec![("value".to_string(), arg_type.to_string())];
    JavaCompatUdfExecutor::new(&plan(name, args, return_type, body)).unwrap()
}

fn create_java_function_with_args(
    name: &str,
    args: Vec<(String, String)>,
    return_type: &str,
    body: &str,
) -> JavaCompatUdfExecutor {
    JavaCompatUdfExecutor::new(&plan(name, args, return_type, body)).unwrap()
}

#[test]
fn java_function_executor_runs_compatible_body() {
    let echo_args = vec![("val".to_string(), "text".to_string())];

    let created = JavaCompatUdfExecutor::new(&CreateFunctionPlan {
                keyspace: "ks".to_string(),
                name: "echo".to_string(),
                or_replace: false,
                if_not_exists: false,
                args: echo_args.clone(),
                called_on_null_input: false,
                return_type: "text".to_string(),
                language: "java".to_string(),
                body: "return val;".to_string(),
            }).unwrap();

    let echo = created;
    assert_eq!(echo.language(), "java");
    assert_eq!(
        echo.execute(&[UdfValue::Text("Ada".to_string())]).unwrap(),
        UdfValue::Text("Ada".to_string())
    );

    let plus_args = vec![
        ("a".to_string(), "int".to_string()),
        ("b".to_string(), "int".to_string()),
    ];
    let created = JavaCompatUdfExecutor::new(&CreateFunctionPlan {
                keyspace: "ks".to_string(),
                name: "plus".to_string(),
                or_replace: false,
                if_not_exists: false,
                args: plus_args.clone(),
                called_on_null_input: false,
                return_type: "int".to_string(),
                language: "java".to_string(),
                body: "return a + b;".to_string(),
            }).unwrap();

    let plus = created;
    assert_eq!(
        plus.execute(&[UdfValue::Int(2), UdfValue::Int(3)]).unwrap(),
        UdfValue::Int(5)
    );

    let minus_args = vec![
        ("a".to_string(), "int".to_string()),
        ("b".to_string(), "int".to_string()),
    ];
    let created = JavaCompatUdfExecutor::new(&CreateFunctionPlan {
                keyspace: "ks".to_string(),
                name: "minus".to_string(),
                or_replace: false,
                if_not_exists: false,
                args: minus_args.clone(),
                called_on_null_input: false,
                return_type: "int".to_string(),
                language: "java".to_string(),
                body: "return a - b;".to_string(),
            }).unwrap();

    let minus = created;
    assert_eq!(
        minus
            .execute(&[UdfValue::Int(7), UdfValue::Int(2)])
            .unwrap(),
        UdfValue::Int(5)
    );

    let multiply_args = vec![
        ("a".to_string(), "int".to_string()),
        ("b".to_string(), "int".to_string()),
    ];
    let created = JavaCompatUdfExecutor::new(&CreateFunctionPlan {
                keyspace: "ks".to_string(),
                name: "multiply".to_string(),
                or_replace: false,
                if_not_exists: false,
                args: multiply_args.clone(),
                called_on_null_input: false,
                return_type: "int".to_string(),
                language: "java".to_string(),
                body: "return a * b;".to_string(),
            }).unwrap();

    let multiply = created;
    assert_eq!(
        multiply
            .execute(&[UdfValue::Int(6), UdfValue::Int(7)])
            .unwrap(),
        UdfValue::Int(42)
    );

    let divide_args = vec![
        ("a".to_string(), "int".to_string()),
        ("b".to_string(), "int".to_string()),
    ];
    let created = JavaCompatUdfExecutor::new(&CreateFunctionPlan {
                keyspace: "ks".to_string(),
                name: "divide".to_string(),
                or_replace: false,
                if_not_exists: false,
                args: divide_args.clone(),
                called_on_null_input: false,
                return_type: "int".to_string(),
                language: "java".to_string(),
                body: "return a / b;".to_string(),
            }).unwrap();

    let divide = created;
    assert_eq!(
        divide
            .execute(&[UdfValue::Int(7), UdfValue::Int(2)])
            .unwrap(),
        UdfValue::Int(3)
    );

    let smallint_args =
        create_java_binary_function( "smallint_plus", "smallint", "return a + b;");
    let smallint_plus = smallint_args;
    assert_eq!(
        smallint_plus
            .execute(&[UdfValue::Smallint(300), UdfValue::Smallint(22)])
            .unwrap(),
        UdfValue::Smallint(322)
    );

    let tinyint_args =
        create_java_binary_function( "tinyint_multiply", "tinyint", "return a * b;");
    let tinyint_multiply = tinyint_args;
    assert_eq!(
        tinyint_multiply
            .execute(&[UdfValue::Tinyint(6), UdfValue::Tinyint(7)])
            .unwrap(),
        UdfValue::Tinyint(42)
    );

    let modulo_args = create_java_binary_function( "modulo", "int", "return a % b;");
    let modulo = modulo_args;
    assert_eq!(
        modulo
            .execute(&[UdfValue::Int(17), UdfValue::Int(5)])
            .unwrap(),
        UdfValue::Int(2)
    );

    let greater_args = create_java_binary_function_with_return(
        "is_greater",
        "int",
        "boolean",
        "return a > b;",
    );
    let is_greater = greater_args;
    assert_eq!(
        is_greater
            .execute(&[UdfValue::Int(9), UdfValue::Int(3)])
            .unwrap(),
        UdfValue::Boolean(true)
    );

    let ne_args = create_java_binary_function_with_return(
        "smallint_ne",
        "smallint",
        "boolean",
        "return a != b;",
    );
    let smallint_ne = ne_args;
    assert_eq!(
        smallint_ne
            .execute(&[UdfValue::Smallint(7), UdfValue::Smallint(8)])
            .unwrap(),
        UdfValue::Boolean(true)
    );

    let text_equals_args = create_java_binary_function_with_return(
        "text_equals",
        "text",
        "boolean",
        "return a.equals(b);",
    );
    let text_equals = text_equals_args;
    assert_eq!(
        text_equals
            .execute(&[
                UdfValue::Text("ada".to_string()),
                UdfValue::Text("ada".to_string())
            ])
            .unwrap(),
        UdfValue::Boolean(true)
    );

    let text_not_equals_args = create_java_binary_function_with_return(
        "text_not_equals",
        "text",
        "boolean",
        "return !a.equals(b);",
    );
    let text_not_equals = text_not_equals_args;
    assert_eq!(
        text_not_equals
            .execute(&[
                UdfValue::Text("ada".to_string()),
                UdfValue::Text("grace".to_string())
            ])
            .unwrap(),
        UdfValue::Boolean(true)
    );

    let length_args = create_java_unary_function_with_return(
        "text_length",
        "text",
        "int",
        "return value.length();",
    );
    let text_length = length_args;
    assert_eq!(
        text_length
            .execute(&[UdfValue::Text("cafe".to_string())])
            .unwrap(),
        UdfValue::Int(4)
    );

    let trim_args = create_java_unary_function_with_return(
        "text_trim",
        "text",
        "text",
        "return value.trim();",
    );
    let text_trim = trim_args;
    assert_eq!(
        text_trim
            .execute(&[UdfValue::Text("  ada  ".to_string())])
            .unwrap(),
        UdfValue::Text("ada".to_string())
    );

    let empty_args = create_java_unary_function_with_return(
        "text_empty",
        "text",
        "boolean",
        "return value.isEmpty();",
    );
    let text_empty = empty_args;
    assert_eq!(
        text_empty
            .execute(&[UdfValue::Text(String::new())])
            .unwrap(),
        UdfValue::Boolean(true)
    );

    let contains_args = create_java_binary_function_with_return(
        "text_contains",
        "text",
        "boolean",
        "return a.contains(b);",
    );
    let text_contains = contains_args;
    assert_eq!(
        text_contains
            .execute(&[
                UdfValue::Text("cassandra".to_string()),
                UdfValue::Text("sand".to_string())
            ])
            .unwrap(),
        UdfValue::Boolean(true)
    );

    let starts_with_args = create_java_binary_function_with_return(
        "text_starts_with",
        "text",
        "boolean",
        "return a.startsWith(b);",
    );
    let text_starts_with = starts_with_args;
    assert_eq!(
        text_starts_with
            .execute(&[
                UdfValue::Text("cassandra".to_string()),
                UdfValue::Text("cass".to_string())
            ])
            .unwrap(),
        UdfValue::Boolean(true)
    );

    let ends_with_args = create_java_binary_function_with_return(
        "text_ends_with",
        "text",
        "boolean",
        "return a.endsWith(b);",
    );
    let text_ends_with = ends_with_args;
    assert_eq!(
        text_ends_with
            .execute(&[
                UdfValue::Text("cassandra".to_string()),
                UdfValue::Text("dra".to_string())
            ])
            .unwrap(),
        UdfValue::Boolean(true)
    );

    let substring_args = create_java_function_with_args(
        "text_substring",
        vec![
            ("value".to_string(), "text".to_string()),
            ("begin".to_string(), "int".to_string()),
        ],
        "text",
        "return value.substring(begin);",
    );
    let text_substring = substring_args;
    assert_eq!(
        text_substring
            .execute(&[UdfValue::Text("cassandra".to_string()), UdfValue::Int(4)])
            .unwrap(),
        UdfValue::Text("andra".to_string())
    );

    let substring_range_args = create_java_function_with_args(
        "text_substring_range",
        vec![
            ("value".to_string(), "text".to_string()),
            ("begin".to_string(), "int".to_string()),
            ("end".to_string(), "int".to_string()),
        ],
        "text",
        "return value.substring(begin, end);",
    );
    let text_substring_range = substring_range_args;
    assert_eq!(
        text_substring_range
            .execute(&[
                UdfValue::Text("cassandra".to_string()),
                UdfValue::Int(1),
                UdfValue::Int(4)
            ])
            .unwrap(),
        UdfValue::Text("ass".to_string())
    );

    let index_of_args = create_java_binary_function_with_return(
        "text_index_of",
        "text",
        "int",
        "return a.indexOf(b);",
    );
    let text_index_of = index_of_args;
    assert_eq!(
        text_index_of
            .execute(&[
                UdfValue::Text("cassandra".to_string()),
                UdfValue::Text("sand".to_string())
            ])
            .unwrap(),
        UdfValue::Int(3)
    );

    let last_index_of_args = create_java_binary_function_with_return(
        "text_last_index_of",
        "text",
        "int",
        "return a.lastIndexOf(b);",
    );
    let text_last_index_of = last_index_of_args;
    assert_eq!(
        text_last_index_of
            .execute(&[
                UdfValue::Text("cassandra".to_string()),
                UdfValue::Text("a".to_string())
            ])
            .unwrap(),
        UdfValue::Int(8)
    );

    let replace_args = create_java_function_with_args(
        "text_replace",
        vec![
            ("value".to_string(), "text".to_string()),
            ("target".to_string(), "text".to_string()),
            ("replacement".to_string(), "text".to_string()),
        ],
        "text",
        "return value.replace(target, replacement);",
    );
    let text_replace = replace_args;
    assert_eq!(
        text_replace
            .execute(&[
                UdfValue::Text("cassandra".to_string()),
                UdfValue::Text("a".to_string()),
                UdfValue::Text("A".to_string())
            ])
            .unwrap(),
        UdfValue::Text("cAssAndrA".to_string())
    );

    let negate_args = create_java_unary_function_with_return(
        "negate_int",
        "int",
        "int",
        "return -value;",
    );
    let negate_int = negate_args;
    assert_eq!(
        negate_int.execute(&[UdfValue::Int(7)]).unwrap(),
        UdfValue::Int(-7)
    );

    let not_args = create_java_unary_function_with_return(
        "not_bool",
        "boolean",
        "boolean",
        "return !value;",
    );
    let not_bool = not_args;
    assert_eq!(
        not_bool.execute(&[UdfValue::Boolean(false)]).unwrap(),
        UdfValue::Boolean(true)
    );

    let and_args = create_java_binary_function_with_return(
        "bool_and",
        "boolean",
        "boolean",
        "return a && b;",
    );
    let bool_and = and_args;
    assert_eq!(
        bool_and
            .execute(&[UdfValue::Boolean(true), UdfValue::Boolean(false)])
            .unwrap(),
        UdfValue::Boolean(false)
    );

    let or_args = create_java_binary_function_with_return(
        "bool_or",
        "boolean",
        "boolean",
        "return a || b;",
    );
    let bool_or = or_args;
    assert_eq!(
        bool_or
            .execute(&[UdfValue::Boolean(true), UdfValue::Boolean(false)])
            .unwrap(),
        UdfValue::Boolean(true)
    );

    let increment_args = create_java_unary_function_with_return(
        "increment",
        "int",
        "int",
        "return value + 1;",
    );
    let increment = increment_args;
    assert_eq!(
        increment.execute(&[UdfValue::Int(41)]).unwrap(),
        UdfValue::Int(42)
    );

    let decrement_args = create_java_unary_function_with_return(
        "decrement",
        "int",
        "int",
        "return value - 1;",
    );
    let decrement = decrement_args;
    assert_eq!(
        decrement.execute(&[UdfValue::Int(42)]).unwrap(),
        UdfValue::Int(41)
    );

    let double_value_args = create_java_unary_function_with_return(
        "double_value",
        "int",
        "int",
        "return value * 2;",
    );
    let double_value = double_value_args;
    assert_eq!(
        double_value.execute(&[UdfValue::Int(21)]).unwrap(),
        UdfValue::Int(42)
    );

    let halve_value_args = create_java_unary_function_with_return(
        "halve_value",
        "int",
        "int",
        "return value / 2;",
    );
    let halve_value = halve_value_args;
    assert_eq!(
        halve_value.execute(&[UdfValue::Int(84)]).unwrap(),
        UdfValue::Int(42)
    );

    let remainder_literal_args = create_java_unary_function_with_return(
        "remainder_literal",
        "int",
        "int",
        "return value % 5;",
    );
    let remainder_literal = remainder_literal_args;
    assert_eq!(
        remainder_literal.execute(&[UdfValue::Int(42)]).unwrap(),
        UdfValue::Int(2)
    );

    let suffix_args = create_java_unary_function_with_return(
        "text_suffix",
        "text",
        "text",
        "return value + \"_x\";",
    );
    let text_suffix = suffix_args;
    assert_eq!(
        text_suffix
            .execute(&[UdfValue::Text("ada".to_string())])
            .unwrap(),
        UdfValue::Text("ada_x".to_string())
    );

    let prefix_args = create_java_unary_function_with_return(
        "text_prefix",
        "text",
        "text",
        "return \"db_\" + value;",
    );
    let text_prefix = prefix_args;
    assert_eq!(
        text_prefix
            .execute(&[UdfValue::Text("node".to_string())])
            .unwrap(),
        UdfValue::Text("db_node".to_string())
    );

    let greater_than_literal_args = create_java_unary_function_with_return(
        "greater_than_literal",
        "int",
        "boolean",
        "return value > 10;",
    );
    let greater_than_literal = greater_than_literal_args;
    assert_eq!(
        greater_than_literal.execute(&[UdfValue::Int(11)]).unwrap(),
        UdfValue::Boolean(true)
    );
    assert_eq!(
        greater_than_literal.execute(&[UdfValue::Int(10)]).unwrap(),
        UdfValue::Boolean(false)
    );

    let text_equals_literal_args = create_java_unary_function_with_return(
        "text_equals_literal",
        "text",
        "boolean",
        "return value.equals(\"Ada\");",
    );
    let text_equals_literal = text_equals_literal_args;
    assert_eq!(
        text_equals_literal
            .execute(&[UdfValue::Text("Ada".to_string())])
            .unwrap(),
        UdfValue::Boolean(true)
    );
    assert_eq!(
        text_equals_literal
            .execute(&[UdfValue::Text("ada".to_string())])
            .unwrap(),
        UdfValue::Boolean(false)
    );

    let text_not_equals_literal_args = create_java_unary_function_with_return(
        "text_not_equals_literal",
        "text",
        "boolean",
        "return !value.equals(\"skip\");",
    );
    let text_not_equals_literal = text_not_equals_literal_args;
    assert_eq!(
        text_not_equals_literal
            .execute(&[UdfValue::Text("keep".to_string())])
            .unwrap(),
        UdfValue::Boolean(true)
    );

    let boolean_equals_literal_args = create_java_unary_function_with_return(
        "boolean_equals_literal",
        "boolean",
        "boolean",
        "return value == true;",
    );
    let boolean_equals_literal = boolean_equals_literal_args;
    assert_eq!(
        boolean_equals_literal
            .execute(&[UdfValue::Boolean(true)])
            .unwrap(),
        UdfValue::Boolean(true)
    );

    let contains_literal_args = create_java_unary_function_with_return(
        "contains_literal",
        "text",
        "boolean",
        "return value.contains(\"db\");",
    );
    let contains_literal = contains_literal_args;
    assert_eq!(
        contains_literal
            .execute(&[UdfValue::Text("node-db-1".to_string())])
            .unwrap(),
        UdfValue::Boolean(true)
    );

    let substring_literal_args = create_java_unary_function_with_return(
        "substring_literal",
        "text",
        "text",
        "return value.substring(2);",
    );
    let substring_literal = substring_literal_args;
    assert_eq!(
        substring_literal
            .execute(&[UdfValue::Text("abcdef".to_string())])
            .unwrap(),
        UdfValue::Text("cdef".to_string())
    );

    let substring_range_literal_args = create_java_unary_function_with_return(
        "substring_range_literal",
        "text",
        "text",
        "return value.substring(1, 4);",
    );
    let substring_range_literal = substring_range_literal_args;
    assert_eq!(
        substring_range_literal
            .execute(&[UdfValue::Text("abcdef".to_string())])
            .unwrap(),
        UdfValue::Text("bcd".to_string())
    );

    let replace_literal_args = create_java_unary_function_with_return(
        "replace_literal",
        "text",
        "text",
        "return value.replace(\"old\", \"new\");",
    );
    let replace_literal = replace_literal_args;
    assert_eq!(
        replace_literal
            .execute(&[UdfValue::Text("old_path".to_string())])
            .unwrap(),
        UdfValue::Text("new_path".to_string())
    );
}



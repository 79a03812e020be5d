use cassandra_server::java_udf::{CreateFunctionPlan, JavaCompatUdfExecutor};
use cassandra_server::java_parse::parse_java_compat_body;
use cassandra_server::udf_value::UdfValue;

fn plan(args: &[(&str, &str)], return_type: &str, body: &str, called_on_null_input: bool) -> CreateFunctionPlan {
    CreateFunctionPlan {
        keyspace: "ks".to_string(),
        name: "f".to_string(),
        or_replace: false,
        if_not_exists: false,
        args: args.iter().map(|(n, t)| (n.to_string(), t.to_string())).collect(),
        called_on_null_input,
        return_type: return_type.to_string(),
        language: "java".to_string(),
        body: body.to_string(),
    }
}

fn udf(args: &[(&str, &str)], return_type: &str, body: &str) -> JavaCompatUdfExecutor {
    JavaCompatUdfExecutor::new(&plan(args, return_type, body, false)).unwrap()
}

#[test]
fn unsupported_body_is_refused() {
    let err = JavaCompatUdfExecutor::new(&plan(&[("a", "int")], "int", "return Math.abs(a);", false)).unwrap_err();
    assert_eq!(err, "Unsupported Java UDF body: return Math.abs(a);");
    assert!(parse_java_compat_body("a + b", &[]).is_none());
}

#[test]
fn return_type_is_lowercased_and_language_is_java() {
    let f = udf(&[("a", "int")], "INT", "return a;");
    assert_eq!(f.return_type, "int");
    assert_eq!(f.language(), "java");
}

#[test]
fn null_input_short_circuits_unless_called_on_null() {
    let f = udf(&[("a", "int"), ("b", "int")], "int", "return a + b;");
    assert_eq!(f.execute(&[UdfValue::Null, UdfValue::Int(1)]).unwrap(), UdfValue::Null);
    let g = JavaCompatUdfExecutor::new(&plan(&[("a", "text")], "boolean", "return a.isEmpty();", true)).unwrap();
    assert_eq!(g.execute(&[UdfValue::Null]).unwrap(), UdfValue::Null);
    assert_eq!(g.execute(&[UdfValue::Text(String::new())]).unwrap(), UdfValue::Boolean(true));
}

#[test]
fn integer_arithmetic_saturates_and_divides_toward_zero() {
    let add = udf(&[("a", "int"), ("b", "int")], "int", "return a + b;");
    assert_eq!(add.execute(&[UdfValue::Int(i32::MAX), UdfValue::Int(1)]).unwrap(), UdfValue::Int(i32::MAX));
    let div = udf(&[("a", "int"), ("b", "int")], "int", "return a / b;");
    assert_eq!(div.execute(&[UdfValue::Int(-7), UdfValue::Int(2)]).unwrap(), UdfValue::Int(-3));
    assert_eq!(div.execute(&[UdfValue::Int(i32::MIN), UdfValue::Int(-1)]).unwrap(), UdfValue::Int(i32::MIN));
    assert_eq!(div.execute(&[UdfValue::Int(1), UdfValue::Int(0)]).unwrap_err(), "Division by zero");
    let rem = udf(&[("a", "int"), ("b", "int")], "int", "return a % b;");
    assert_eq!(rem.execute(&[UdfValue::Int(-7), UdfValue::Int(2)]).unwrap(), UdfValue::Int(-1));
    let neg = udf(&[("value", "tinyint")], "tinyint", "return -value;");
    assert_eq!(neg.execute(&[UdfValue::Tinyint(i8::MIN)]).unwrap(), UdfValue::Tinyint(i8::MAX));
}

#[test]
fn arithmetic_errors_name_the_operands() {
    let add = udf(&[("a", "int"), ("b", "int")], "int", "return a + b;");
    assert_eq!(
        add.execute(&[UdfValue::Int(1), UdfValue::Text("x".to_string())]).unwrap_err(),
        "Expected int arguments, got Int(1) and Text(\"x\")"
    );
    assert_eq!(add.execute(&[UdfValue::Int(1)]).unwrap_err(), "Missing right Java UDF argument");
    let lit = udf(&[("value", "tinyint")], "tinyint", "return value + 300;");
    assert_eq!(
        lit.execute(&[UdfValue::Tinyint(1)]).unwrap_err(),
        "Integer literal 300 is out of range for tinyint"
    );
}

#[test]
fn text_concatenation_and_blobs() {
    let cat = udf(&[("a", "text"), ("b", "text")], "text", "return a + b;");
    assert_eq!(
        cat.execute(&[UdfValue::Text("ab".to_string()), UdfValue::Text("cd".to_string())]).unwrap(),
        UdfValue::Text("abcd".to_string())
    );
    let blob = udf(&[("a", "blob"), ("b", "blob")], "blob", "return a + b;");
    assert_eq!(
        blob.execute(&[UdfValue::Blob(vec![1]), UdfValue::Blob(vec![2, 3])]).unwrap(),
        UdfValue::Blob(vec![1, 2, 3])
    );
    let sub = udf(&[("a", "text"), ("b", "text")], "text", "return a - b;");
    assert_eq!(
        sub.execute(&[UdfValue::Text("a".to_string()), UdfValue::Text("b".to_string())]).unwrap_err(),
        "Java subtraction UDF is not supported for return type text"
    );
}

#[test]
fn substring_bounds_are_checked() {
    let f = udf(&[("value", "text")], "text", "return value.substring(2, 9);");
    assert_eq!(
        f.execute(&[UdfValue::Text("abc".to_string())]).unwrap_err(),
        "Substring bounds out of range: begin=2, end=9, length=3"
    );
}

#[test]
fn comparisons_need_boolean_results() {
    let f = udf(&[("a", "int"), ("b", "int")], "int", "return a > b;");
    assert_eq!(
        f.execute(&[UdfValue::Int(1), UdfValue::Int(2)]).unwrap_err(),
        "Java comparison UDF must return boolean, got int"
    );
    let g = udf(&[("a", "bigint"), ("b", "int")], "boolean", "return a == b;");
    assert_eq!(g.execute(&[UdfValue::Long(5), UdfValue::Int(5)]).unwrap(), UdfValue::Boolean(true));
    let h = udf(&[("a", "bigint"), ("b", "bigint")], "boolean", "return a == b;");
    assert_eq!(
        h.execute(&[UdfValue::Long(9007199254740993), UdfValue::Long(9007199254740992)]).unwrap(),
        UdfValue::Boolean(true)
    );
}

#[test]
fn text_helpers() {
    let idx = udf(&[("a", "text"), ("b", "text")], "int", "return a.lastIndexOf(b);");
    assert_eq!(
        idx.execute(&[UdfValue::Text("abcabc".to_string()), UdfValue::Text("bc".to_string())]).unwrap(),
        UdfValue::Int(4)
    );
    let up = udf(&[("value", "text")], "text", "return value.toUpperCase();");
    assert_eq!(up.execute(&[UdfValue::Text("aé".to_string())]).unwrap(), UdfValue::Text("Aé".to_string()));
    let trim = udf(&[("value", "text")], "text", "return value.trim();");
    assert_eq!(trim.execute(&[UdfValue::Text("\u{2003}x ".to_string())]).unwrap(), UdfValue::Text("x".to_string()));
}

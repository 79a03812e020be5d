//! The Java-compatible function executor: a recognised body, the declared
//! return type and the null-input behaviour of a `CREATE FUNCTION`.
use vstd::prelude::*;
use crate::chars::{lower, lower_chars};
use crate::java_body::{JavaCompatUdfBody, Body, arg_names, parse_java_body};
use crate::java_exec::{outcome, run_body_exec, any_null};
use crate::java_parse::parse_java_compat_body;
use crate::java_semantics::run_function;
use crate::text::{chars_of, string_from_chars, push_str};
use crate::udf_value::{UdfValue, udf_views};

verus! {

/// What a `CREATE FUNCTION` statement asks for.
#[derive(Debug, Clone)]
pub struct CreateFunctionPlan {
    pub keyspace: String,
    pub name: String,
    pub or_replace: bool,
    pub if_not_exists: bool,
    /// Argument names and CQL types, in order.
    pub args: Vec<(String, String)>,
    pub called_on_null_input: bool,
    pub return_type: String,
    pub language: String,
    pub body: String,
}

/// A Java function run by interpreting its recognised body.
#[derive(Debug, Clone)]
pub struct JavaCompatUdfExecutor {
    pub body: JavaCompatUdfBody<String>,
    /// The declared return type, lower-cased.
    pub return_type: String,
    pub called_on_null_input: bool,
}

/// The error `JavaCompatUdfExecutor::new` gives for a body it does not recognise.
pub open spec fn unsupported_body_message(body: Seq<char>) -> Seq<char> {
    "Unsupported Java UDF body: "@ + body
}

impl JavaCompatUdfExecutor {
    /// The executor for a function plan, or an error when its body is not recognised.
    pub fn new(plan: &CreateFunctionPlan) -> (r: Result<JavaCompatUdfExecutor, String>)
        ensures
            match parse_java_body(plan.body@, arg_names(plan.args@)) {
                Some(b) => r matches Ok(x) && x.body@ == b && x.return_type@ == lower(plan.return_type@)
                    && x.called_on_null_input == plan.called_on_null_input,
                None => r matches Err(e) && e@ == unsupported_body_message(plan.body@),
            },
    {
        match parse_java_compat_body(plan.body.as_str(), plan.args.as_slice()) {
            Some(body) => {
                let rt = chars_of(plan.return_type.as_str());
                let lowered = lower_chars(&rt);
                Ok(JavaCompatUdfExecutor {
                    body,
                    return_type: string_from_chars(&lowered),
                    called_on_null_input: plan.called_on_null_input,
                })
            },
            None => {
                let mut m = String::new();
                push_str(&mut m, "Unsupported Java UDF body: ");
                push_str(&mut m, plan.body.as_str());
                Err(m)
            },
        }
    }

    /// Runs the function on `args`.
    pub fn execute(&self, args: &[UdfValue]) -> (r: Result<UdfValue, String>)
        ensures
            outcome(r) == run_function(self.body@, self.return_type@, self.called_on_null_input, udf_views(args@)),
    {
        if !self.called_on_null_input && any_null(args) {
            return Ok(UdfValue::Null);
        }
        run_body_exec(&self.body, self.return_type.as_str(), args)
    }

    /// The language the function is written in.
    pub fn language(&self) -> (r: &'static str)
        ensures
            r@ == "java"@,
    {
        "java"
    }
}

} // verus!

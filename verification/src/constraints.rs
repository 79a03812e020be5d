//! Column `CHECK` constraints: the parts that do not compare floating-point numbers.
use vstd::prelude::*;
use vstd::utf8::{valid_utf8, decode_utf8, encode_utf8};
use std::cmp::Ordering;
use byteorder::{BigEndian, ByteOrder};
use crate::chars::{eq_ignore_case, lower, lower_chars};
use crate::error::ExecutorError;
use crate::numbers::{signed_be, unsigned_be, read_be};
use crate::relations::{lex_less, lex_less_exec};
use crate::text::{chars_of, push_str, push_decimal_u64, str_eq, string_from_chars};
use crate::types::{CqlType, ColumnMetadata, textual};

verus! {

broadcast use vstd::seq_lib::group_seq_properties;

/// The operator of a `CHECK` comparison.
#[derive(Debug, Clone, Copy, PartialEq, Eq, Structural)]
pub enum ConstraintRelationOp {
    Eq,
    NotEq,
    Lt,
    Lte,
    Gt,
    Gte,
}

/// A `CHECK` constraint of a column, as the schema stores it.
#[derive(Debug, Clone, PartialEq, Eq)]
pub enum ColumnConstraint {
    /// `NOT NULL`.
    NotNull,
    /// `CHECK column <op> term`.
    Scalar { column: String, op: ConstraintRelationOp, term: String },
    /// `CHECK name(args) <op> term`.
    Function { name: String, args: Vec<String>, op: ConstraintRelationOp, term: String },
    /// `CHECK name(args)`, such as `not_null` or `json`.
    UnaryFunction { name: String, args: Vec<String> },
}

/// How an operator is written in error messages (its `Debug` form).
pub open spec fn op_debug(op: ConstraintRelationOp) -> Seq<char> {
    match op {
        ConstraintRelationOp::Eq => "Eq"@,
        ConstraintRelationOp::NotEq => "NotEq"@,
        ConstraintRelationOp::Lt => "Lt"@,
        ConstraintRelationOp::Lte => "Lte"@,
        ConstraintRelationOp::Gt => "Gt"@,
        ConstraintRelationOp::Gte => "Gte"@,
    }
}

/// Whether an ordering of the actual against the expected value satisfies `op`;
/// `order` is negative, zero or positive for less, equal, greater.
pub open spec fn ordering_satisfies(order: int, op: ConstraintRelationOp) -> bool {
    match op {
        ConstraintRelationOp::Eq => order == 0,
        ConstraintRelationOp::NotEq => order != 0,
        ConstraintRelationOp::Lt => order < 0,
        ConstraintRelationOp::Lte => order <= 0,
        ConstraintRelationOp::Gt => order > 0,
        ConstraintRelationOp::Gte => order >= 0,
    }
}

/// The number an ordering stands for: -1, 0 or 1.
pub open spec fn ordering_value(o: Ordering) -> int {
    match o {
        Ordering::Less => -1,
        Ordering::Equal => 0,
        Ordering::Greater => 1,
    }
}

/// Whether an ordering satisfies a constraint operator.
pub fn compare_ordering(ordering: Ordering, op: ConstraintRelationOp) -> (r: bool)
    ensures
        r == ordering_satisfies(ordering_value(ordering), op),
{
    let order: i8 = match ordering {
        Ordering::Less => -1,
        Ordering::Equal => 0,
        Ordering::Greater => 1,
    };
    match op {
        ConstraintRelationOp::Eq => order == 0,
        ConstraintRelationOp::NotEq => order != 0,
        ConstraintRelationOp::Lt => order < 0,
        ConstraintRelationOp::Lte => order <= 0,
        ConstraintRelationOp::Gt => order > 0,
        ConstraintRelationOp::Gte => order >= 0,
    }
}

fn op_debug_exec(op: ConstraintRelationOp) -> (r: &'static str)
    ensures
        r@ == op_debug(op),
{
    match op {
        ConstraintRelationOp::Eq => "Eq",
        ConstraintRelationOp::NotEq => "NotEq",
        ConstraintRelationOp::Lt => "Lt",
        ConstraintRelationOp::Lte => "Lte",
        ConstraintRelationOp::Gt => "Gt",
        ConstraintRelationOp::Gte => "Gte",
    }
}

// ─── text decoding ──────────────────────────────────────────────────────

/// The text `String::from_utf8_lossy` makes of some bytes.
pub uninterp spec fn lossy_text(b: Seq<u8>) -> Seq<char>;

/// `String::from_utf8_lossy`: valid UTF-8 decodes as it is; invalid sequences
/// become replacement characters.
#[verifier::external_body]
fn utf8_lossy(b: &[u8]) -> (r: String)
    ensures
        r@ == lossy_text(b@),
        valid_utf8(b@) ==> r@ == decode_utf8(b@),
{
    String::from_utf8_lossy(b).into_owned()
}

/// The message `String::from_utf8` gives for bytes that are not UTF-8.
pub uninterp spec fn utf8_error_text(b: Seq<u8>) -> Seq<char>;

/// `String::from_utf8`, with its error as text.
#[verifier::external_body]
fn utf8_strict(b: &[u8]) -> (r: Result<String, String>)
    ensures
        match r {
            Ok(s) => valid_utf8(b@) && s@ == decode_utf8(b@),
            Err(e) => !valid_utf8(b@) && e@ == utf8_error_text(b@),
        },
{
    String::from_utf8(b.to_vec()).map_err(|e| e.to_string())
}

// ─── regexp ─────────────────────────────────────────────────────────────

#[verifier::external_type_specification]
#[verifier::external_body]
pub struct ExRegex(regex::Regex);

/// The error `regex::Regex::new` reports for a pattern, or `None` when it compiles.
pub uninterp spec fn regex_compile_error(pattern: Seq<char>) -> Option<Seq<char>>;

/// Whether the regex compiled from `pattern` finds a match in `text`.
pub uninterp spec fn regex_finds(pattern: Seq<char>, text: Seq<char>) -> bool;

/// `regex::Regex::new`, with its error as text.
#[verifier::external_body]
fn regex_new(pattern: &str) -> (r: Result<regex::Regex, String>)
    ensures
        match r {
            Ok(_) => regex_compile_error(pattern@) is None,
            Err(e) => regex_compile_error(pattern@) == Some(e@),
        },
{
    regex::Regex::new(pattern).map_err(|e| e.to_string())
}

/// A compiled regular expression, remembering the pattern it came from.
pub struct CompiledRegex {
    regex: regex::Regex,
    pattern: Ghost<Seq<char>>,
}

impl View for CompiledRegex {
    type V = Seq<char>;

    closed spec fn view(&self) -> Seq<char> {
        self.pattern@
    }
}

impl CompiledRegex {
    /// Compiles `pattern`, or gives the compiler's error.
    pub fn compile(pattern: &str) -> (r: Result<CompiledRegex, String>)
        ensures
            match r {
                Ok(re) => regex_compile_error(pattern@) is None && re@ == pattern@,
                Err(e) => regex_compile_error(pattern@) == Some(e@),
            },
    {
        match regex_new(pattern) {
            Ok(regex) => Ok(CompiledRegex { regex, pattern: Ghost(pattern@) }),
            Err(e) => Err(e),
        }
    }
}

/// `regex::Regex::is_match`.
#[verifier::external_body]
fn regex_is_match(re: &CompiledRegex, text: &str) -> (r: bool)
    ensures
        r == regex_finds(re@, text@),
{
    re.regex.is_match(text)
}

/// The anchored form a `regexp` constraint compiles: `^(?:pattern)$`.
pub open spec fn anchored(pattern: Seq<char>) -> Seq<char> {
    "^(?:"@ + pattern + ")$"@
}

/// What a `regexp` constraint decides for a value.
pub open spec fn regexp_verdict(actual: Seq<u8>, t: CqlType, pattern: Seq<char>, op: ConstraintRelationOp) -> Result<bool, Seq<char>> {
    if !(op is Eq || op is NotEq) {
        Err("regexp CHECK constraint only supports = and != operators, got "@ + op_debug(op))
    } else if !textual(t) {
        Err("regexp CHECK constraint only supports text and ascii columns"@)
    } else {
        match regex_compile_error(anchored(pattern)) {
            Some(e) => Err("Invalid regexp CHECK constraint pattern '"@ + pattern + "': "@ + e),
            None => {
                let found = regex_finds(anchored(pattern), lossy_text(actual));
                Ok(if op is Eq { found } else { !found })
            },
        }
    }
}

/// Whether a text value satisfies a `regexp(...) = / != 'pattern'` constraint.
pub fn compare_regexp_constraint(actual: &[u8], cql_type: &CqlType, pattern: &str, op: ConstraintRelationOp) -> (r: Result<bool, ExecutorError>)
    ensures
        match regexp_verdict(actual@, *cql_type, pattern@, op) {
            Ok(b) => r matches Ok(x) && x == b,
            Err(e) => r matches Err(ExecutorError::InvalidQuery(m)) && m@ == e,
        },
{
    match op {
        ConstraintRelationOp::Eq | ConstraintRelationOp::NotEq => {},
        _ => {
            let mut m = String::new();
            push_str(&mut m, "regexp CHECK constraint only supports = and != operators, got ");
            push_str(&mut m, op_debug_exec(op));
            return Err(ExecutorError::InvalidQuery(m));
        },
    }
    match cql_type {
        CqlType::Ascii | CqlType::Varchar => {},
        _ => {
            let mut m = String::new();
            push_str(&mut m, "regexp CHECK constraint only supports text and ascii columns");
            return Err(ExecutorError::InvalidQuery(m));
        },
    }
    let mut full = String::new();
    push_str(&mut full, "^(?:");
    push_str(&mut full, pattern);
    push_str(&mut full, ")$");
    let re = match CompiledRegex::compile(full.as_str()) {
        Ok(re) => re,
        Err(e) => {
            let mut m = String::new();
            push_str(&mut m, "Invalid regexp CHECK constraint pattern '");
            push_str(&mut m, pattern);
            push_str(&mut m, "': ");
            push_str(&mut m, e.as_str());
            return Err(ExecutorError::InvalidQuery(m));
        },
    };
    let text = utf8_lossy(actual);
    let found = regex_is_match(&re, text.as_str());
    match op {
        ConstraintRelationOp::Eq => Ok(found),
        _ => Ok(!found),
    }
}

// ─── unary constraint functions ─────────────────────────────────────────

/// The error `serde_json` reports for a text that is not JSON, or `None` when it parses.
pub uninterp spec fn json_parse_error(text: Seq<char>) -> Option<Seq<char>>;

/// `serde_json::from_str::<serde_json::Value>`, keeping only whether it parsed.
#[verifier::external_body]
fn json_check(text: &str) -> (r: Result<(), String>)
    ensures
        match r {
            Ok(_) => json_parse_error(text@) is None,
            Err(e) => json_parse_error(text@) == Some(e@),
        },
{
    serde_json::from_str::<serde_json::Value>(text).map(|_| ()).map_err(|e| e.to_string())
}

/// What the `json` constraint decides for a column value.
pub open spec fn json_verdict(column: Seq<char>, t: CqlType, actual: Seq<u8>) -> Result<(), Seq<char>> {
    if !textual(t) {
        Err("json CHECK constraint only supports text and ascii columns"@)
    } else if !valid_utf8(actual) {
        Err("Column '"@ + column + "' violates CHECK json: "@ + utf8_error_text(actual))
    } else {
        match json_parse_error(decode_utf8(actual)) {
            Some(e) => Err("Column '"@ + column + "' violates CHECK json: "@ + e),
            None => Ok(()),
        }
    }
}

/// Whether a value satisfies the `json` constraint: text that parses as JSON.
pub fn validate_json_constraint_value(column: &ColumnMetadata, actual: &[u8]) -> (r: Result<(), ExecutorError>)
    ensures
        match json_verdict(column.name@, column.column_type, actual@) {
            Ok(_) => r is Ok,
            Err(e) => r matches Err(ExecutorError::InvalidQuery(m)) && m@ == e,
        },
{
    match column.column_type {
        CqlType::Ascii | CqlType::Varchar => {},
        _ => {
            let mut m = String::new();
            push_str(&mut m, "json CHECK constraint only supports text and ascii columns");
            return Err(ExecutorError::InvalidQuery(m));
        },
    }
    let text = match utf8_strict(actual) {
        Ok(t) => t,
        Err(e) => {
            let mut m = String::new();
            push_str(&mut m, "Column '");
            push_str(&mut m, column.name.as_str());
            push_str(&mut m, "' violates CHECK json: ");
            push_str(&mut m, e.as_str());
            return Err(ExecutorError::InvalidQuery(m));
        },
    };
    match json_check(text.as_str()) {
        Ok(()) => Ok(()),
        Err(e) => {
            let mut m = String::new();
            push_str(&mut m, "Column '");
            push_str(&mut m, column.name.as_str());
            push_str(&mut m, "' violates CHECK json: ");
            push_str(&mut m, e.as_str());
            Err(ExecutorError::InvalidQuery(m))
        },
    }
}

/// The value written for column `name`: the first entry with that exact name.
pub open spec fn written_value(values: Seq<(String, Option<Vec<u8>>)>, name: Seq<char>) -> Option<Option<Seq<u8>>>
    decreases values.len(),
{
    if values.len() == 0 {
        None
    } else if values[0].0@ == name {
        Some(match values[0].1 { Some(v) => Some(v@), None => None })
    } else {
        written_value(values.drop_first(), name)
    }
}

fn find_written(values: &[(String, Option<Vec<u8>>)], name: &String) -> (r: Option<usize>)
    ensures
        match r {
            Some(i) => i < values@.len() && written_value(values@, name@)
                == Some(match values@[i as int].1 { Some(v) => Some(v@), None => None::<Seq<u8>> }),
            None => written_value(values@, name@) is None,
        },
{
    let mut i: usize = 0;
    assert(values@.subrange(0, values@.len() as int) =~= values@);
    while i < values.len()
        invariant
            i <= values@.len(),
            written_value(values@, name@) == written_value(values@.subrange(i as int, values@.len() as int), name@),
        decreases values.len() - i,
    {
        let ghost rest = values@.subrange(i as int, values@.len() as int);
        assert(rest[0] == values@[i as int]);
        if str_eq(values[i].0.as_str(), name.as_str()) {
            return Some(i);
        }
        assert(rest.drop_first() =~= values@.subrange(i + 1, values@.len() as int));
        i = i + 1;
    }
    None
}

/// What a unary constraint function (`NOT NULL`, `json`) decides for the
/// values of an `INSERT` or `UPDATE`; with `require_all` unset, a column the
/// statement does not write is not checked.
pub open spec fn unary_verdict(column: Seq<char>, t: CqlType, name: Seq<char>, arg_count: nat,
    values: Seq<(String, Option<Vec<u8>>)>, require_all: bool) -> Result<(), Seq<char>> {
    let written = written_value(values, column);
    if !require_all && written is None {
        Ok(())
    } else {
        let l = lower(name);
        if l == "not_null"@ || l == "not null"@ {
            if arg_count > 0 {
                Err("CHECK constraint function '"@ + name + "' does not accept arguments"@)
            } else if !(written matches Some(Some(_))) {
                Err("Column '"@ + column + "' violates CHECK NOT NULL"@)
            } else {
                Ok(())
            }
        } else if l == "json"@ {
            if arg_count > 0 {
                Err("CHECK constraint function '"@ + name + "' does not accept arguments"@)
            } else {
                match written {
                    Some(Some(actual)) => json_verdict(column, t, actual),
                    _ => Ok(()),
                }
            }
        } else {
            Err("Unsupported CHECK constraint unary function '"@ + name + "'"@)
        }
    }
}

fn quoted_error(prefix: &str, middle: &str, suffix: &str) -> (r: ExecutorError)
    ensures
        r matches ExecutorError::InvalidQuery(m) && m@ == prefix@ + middle@ + suffix@,
{
    let mut m = String::new();
    push_str(&mut m, prefix);
    push_str(&mut m, middle);
    push_str(&mut m, suffix);
    ExecutorError::InvalidQuery(m)
}

/// Checks a unary constraint function on a column.
pub fn validate_unary_constraint(
    column: &ColumnMetadata,
    name: &str,
    args: &[String],
    values: &[(String, Option<Vec<u8>>)],
    require_all: bool,
) -> (r: Result<(), ExecutorError>)
    ensures
        match unary_verdict(column.name@, column.column_type, name@, args@.len(), values@, require_all) {
            Ok(_) => r is Ok,
            Err(e) => r matches Err(ExecutorError::InvalidQuery(m)) && m@ == e,
        },
{
    let found = find_written(values, &column.name);
    if !require_all && found.is_none() {
        return Ok(());
    }
    let c = chars_of(name);
    let l = string_from_chars(&lower_chars(&c));
    if str_eq(l.as_str(), "not_null") || str_eq(l.as_str(), "not null") {
        if args.len() > 0 {
            return Err(quoted_error("CHECK constraint function '", name, "' does not accept arguments"));
        }
        let set = match found {
            Some(i) => values[i].1.is_some(),
            None => false,
        };
        if !set {
            return Err(quoted_error("Column '", column.name.as_str(), "' violates CHECK NOT NULL"));
        }
        Ok(())
    } else if str_eq(l.as_str(), "json") {
        if args.len() > 0 {
            return Err(quoted_error("CHECK constraint function '", name, "' does not accept arguments"));
        }
        match found {
            Some(i) => match &values[i].1 {
                Some(actual) => validate_json_constraint_value(column, actual.as_slice()),
                None => Ok(()),
            },
            None => Ok(()),
        }
    } else {
        Err(quoted_error("Unsupported CHECK constraint unary function '", name, "'"))
    }
}

// ─── comparisons that need no floating point ────────────────────────────

/// Whether a type's `CHECK` comparisons go through floating-point numbers.
pub open spec fn numeric(t: CqlType) -> bool {
    t is Tinyint || t is Smallint || t is Int || t is Bigint || t is Counter || t is Timestamp
        || t is Time || t is Float || t is Double || t is Decimal || t is Varint
}

/// Lexicographic order of character sequences by code point (`str` ordering).
pub open spec fn text_less(a: Seq<char>, b: Seq<char>) -> bool
    decreases a.len(),
{
    if a.len() == 0 {
        b.len() > 0
    } else if b.len() == 0 {
        false
    } else if a[0] != b[0] {
        (a[0] as u32) < (b[0] as u32)
    } else {
        text_less(a.drop_first(), b.drop_first())
    }
}

/// No text sorts before itself, and two texts never sort before each other.
pub proof fn lemma_text_asymmetric(a: Seq<char>, b: Seq<char>)
    ensures
        !(text_less(a, b) && text_less(b, a)),
        !text_less(a, a),
    decreases a.len(),
{
    if a.len() > 0 && b.len() > 0 && a[0] == b[0] {
        lemma_text_asymmetric(a.drop_first(), b.drop_first());
    }
    if a.len() > 0 {
        lemma_text_asymmetric(a.drop_first(), a.drop_first());
    }
}

/// Of two different texts, one sorts first.
pub proof fn lemma_text_total(a: Seq<char>, b: Seq<char>)
    ensures
        a != b ==> text_less(a, b) || text_less(b, a),
    decreases a.len(),
{
    if a.len() > 0 && b.len() > 0 && a[0] == b[0] {
        lemma_text_total(a.drop_first(), b.drop_first());
        if a != b {
            assert(a =~= seq![a[0]] + a.drop_first());
            assert(b =~= seq![b[0]] + b.drop_first());
        }
    } else if a.len() == 0 && b.len() == 0 {
        assert(a =~= b);
    } else if a.len() > 0 && b.len() > 0 {
        let x = a[0] as u32;
        let y = b[0] as u32;
        vstd::utf8::char_u32_cast(a[0], x);
        vstd::utf8::char_u32_cast(b[0], y);
        assert(x != y);
    }
}

/// The text order is transitive.
pub proof fn lemma_text_transitive(a: Seq<char>, b: Seq<char>, c: Seq<char>)
    requires
        text_less(a, b),
        text_less(b, c),
    ensures
        text_less(a, c),
    decreases a.len(),
{
    if a.len() > 0 && b.len() > 0 && c.len() > 0 && a[0] == b[0] && b[0] == c[0] {
        lemma_text_transitive(a.drop_first(), b.drop_first(), c.drop_first());
    }
}

/// -1, 0 or 1 as `a` sorts before, equal to or after `b`.
pub open spec fn order_of(less: bool, greater: bool) -> int {
    if less { -1 } else if greater { 1 } else { 0 }
}

/// What a scalar `CHECK` comparison decides for a non-numeric column:
/// booleans compare `false < true` with the expected text parsed as `true` /
/// `false`; text compares by characters; anything else compares bytes with
/// the expected text's UTF-8 bytes.
pub open spec fn scalar_verdict(actual: Seq<u8>, t: CqlType, expected: Seq<char>, op: ConstraintRelationOp) -> Result<bool, Seq<char>> {
    if t is Boolean {
        let a = actual.len() > 0 && actual[0] != 0;
        if expected == "true"@ || expected == "false"@ {
            let e = expected == "true"@;
            Ok(ordering_satisfies(order_of(!a && e, a && !e), op))
        } else {
            Err("Invalid boolean CHECK constraint value '"@ + expected + "'"@)
        }
    } else if textual(t) {
        let a = lossy_text(actual);
        Ok(ordering_satisfies(order_of(text_less(a, expected), text_less(expected, a)), op))
    } else {
        let e = encode_utf8(expected);
        Ok(ordering_satisfies(order_of(lex_less(actual, e), lex_less(e, actual)), op))
    }
}

pub(crate) fn text_less_exec(a: &[char], b: &[char]) -> (r: bool)
    ensures
        r == text_less(a@, b@),
{
    let mut i: usize = 0;
    assert(a@.subrange(0, a@.len() as int) =~= a@);
    assert(b@.subrange(0, b@.len() as int) =~= b@);
    while i < a.len() && i < b.len()
        invariant
            i <= a@.len(),
            i <= b@.len(),
            text_less(a@, b@) == text_less(a@.subrange(i as int, a@.len() as int), b@.subrange(i as int, b@.len() as int)),
        decreases a.len() - i,
    {
        if a[i] != b[i] {
            return (a[i] as u32) < (b[i] as u32);
        }
        let ghost sa = a@.subrange(i as int, a@.len() as int);
        let ghost sb = b@.subrange(i as int, b@.len() as int);
        assert(sa.drop_first() =~= a@.subrange(i + 1, a@.len() as int));
        assert(sb.drop_first() =~= b@.subrange(i + 1, b@.len() as int));
        i = i + 1;
    }
    i == a.len() && i < b.len()
}

fn satisfies(less: bool, greater: bool, op: ConstraintRelationOp) -> (r: bool)
    ensures
        r == ordering_satisfies(order_of(less, greater), op),
{
    let ordering = if less { Ordering::Less } else if greater { Ordering::Greater } else { Ordering::Equal };
    compare_ordering(ordering, op)
}

/// Compares a stored value with the text of a scalar `CHECK` constraint,
/// for column types whose comparison needs no floating point.
pub fn compare_constraint_value(actual: &[u8], cql_type: &CqlType, expected: &str, op: ConstraintRelationOp) -> (r: Result<bool, ExecutorError>)
    requires
        !numeric(*cql_type),
    ensures
        match scalar_verdict(actual@, *cql_type, expected@, op) {
            Ok(b) => r matches Ok(x) && x == b,
            Err(e) => r matches Err(ExecutorError::InvalidQuery(m)) && m@ == e,
        },
{
    match cql_type {
        CqlType::Boolean => {
            let a = actual.len() > 0 && actual[0] != 0;
            let e = if str_eq(expected, "true") {
                true
            } else if str_eq(expected, "false") {
                false
            } else {
                return Err(quoted_error("Invalid boolean CHECK constraint value '", expected, "'"));
            };
            Ok(satisfies(!a && e, a && !e, op))
        },
        CqlType::Ascii | CqlType::Varchar => {
            let text = utf8_lossy(actual);
            let a = chars_of(text.as_str());
            let e = chars_of(expected);
            Ok(satisfies(text_less_exec(&a, &e), text_less_exec(&e, &a), op))
        },
        _ => {
            let e = expected.as_bytes();
            Ok(satisfies(lex_less_exec(actual, e), lex_less_exec(e, actual), op))
        },
    }
}

/// `BigEndian::read_i16` on the first two bytes.
#[verifier::external_body]
fn be_read_i16(buf: &[u8]) -> (r: i16)
    requires
        buf@.len() >= 2,
    ensures
        r == signed_be(buf@.subrange(0, 2)),
{
    BigEndian::read_i16(buf)
}

/// `BigEndian::read_i32` on the first four bytes.
#[verifier::external_body]
fn be_read_i32(buf: &[u8]) -> (r: i32)
    requires
        buf@.len() >= 4,
    ensures
        r == signed_be(buf@.subrange(0, 4)),
{
    BigEndian::read_i32(buf)
}

/// `BigEndian::read_i64` on the first eight bytes.
#[verifier::external_body]
fn be_read_i64(buf: &[u8]) -> (r: i64)
    requires
        buf@.len() >= 8,
    ensures
        r == signed_be(buf@.subrange(0, 8)),
{
    BigEndian::read_i64(buf)
}

/// `x` wrapped to the `i128` range.
pub open spec fn wrap_i128(x: int) -> int {
    crate::numbers::wrap128(x)
}

/// The integer a numeric `CHECK` comparison reads from a stored value of an
/// integral type (which the comparison then converts to floating point):
/// leading bytes of fixed-width types, and every byte of a `varint` read as
/// an unsigned number wrapped to 128 bits. `None` when the value is too short
/// or the type is not integral.
pub open spec fn constraint_integer(actual: Seq<u8>, t: CqlType) -> Option<int> {
    match t {
        CqlType::Tinyint => if actual.len() >= 1 { Some(signed_be(actual.subrange(0, 1))) } else { None },
        CqlType::Smallint => if actual.len() >= 2 { Some(signed_be(actual.subrange(0, 2))) } else { None },
        CqlType::Int => if actual.len() >= 4 { Some(signed_be(actual.subrange(0, 4))) } else { None },
        CqlType::Bigint | CqlType::Counter | CqlType::Timestamp | CqlType::Time =>
            if actual.len() >= 8 { Some(signed_be(actual.subrange(0, 8))) } else { None },
        CqlType::Varint => Some(wrap_i128(unsigned_be(actual) as int)),
        _ => None,
    }
}

/// The integer a numeric `CHECK` comparison reads from a stored value.
pub fn constraint_integer_value(actual: &[u8], cql_type: &CqlType) -> (r: Option<i128>)
    ensures
        match r {
            Some(v) => constraint_integer(actual@, *cql_type) == Some(v as int),
            None => constraint_integer(actual@, *cql_type) is None,
        },
{
    match cql_type {
        CqlType::Tinyint => {
            if actual.len() >= 1 {
                let first = [actual[0]];
                assert(first@ =~= actual@.subrange(0, 1));
                Some(read_be(&first))
            } else {
                None
            }
        },
        CqlType::Smallint => if actual.len() >= 2 { Some(be_read_i16(actual) as i128) } else { None },
        CqlType::Int => if actual.len() >= 4 { Some(be_read_i32(actual) as i128) } else { None },
        CqlType::Bigint | CqlType::Counter | CqlType::Timestamp | CqlType::Time => {
            if actual.len() >= 8 { Some(be_read_i64(actual) as i128) } else { None }
        },
        CqlType::Varint => Some(unsigned_wrapped(actual)),
        _ => None,
    }
}

/// Every byte folded in as an unsigned big-endian number, wrapped to `i128`.
fn unsigned_wrapped(b: &[u8]) -> (r: i128)
    ensures
        r == wrap_i128(unsigned_be(b@) as int),
{
    let mut acc: u128 = 0;
    let mut i: usize = 0;
    assert(b@.subrange(0, 0) =~= Seq::<u8>::empty());
    while i < b.len()
        invariant
            i <= b@.len(),
            acc as int == (unsigned_be(b@.subrange(0, i as int)) as int) % 0x1_0000_0000_0000_0000_0000_0000_0000_0000int,
        decreases b.len() - i,
    {
        let ghost prev = unsigned_be(b@.subrange(0, i as int)) as int;
        let ghost m: int = 0x1_0000_0000_0000_0000_0000_0000_0000_0000int;
        let byte = b[i];
        let high = acc % 0x100_0000_0000_0000_0000_0000_0000_0000u128;
        let next = high * 256 + byte as u128;
        proof {
            assert(b@.subrange(0, i + 1).drop_last() =~= b@.subrange(0, i as int));
            let cur = prev * 256 + byte as int;
            assert(unsigned_be(b@.subrange(0, i + 1)) as int == cur);
            let q = prev / m;
            vstd::arithmetic::div_mod::lemma_fundamental_div_mod(prev, m);
            let hq = (acc as int) / 0x100_0000_0000_0000_0000_0000_0000_0000int;
            vstd::arithmetic::div_mod::lemma_fundamental_div_mod(acc as int, 0x100_0000_0000_0000_0000_0000_0000_0000int);
            assert(cur == m * (q * 256 + hq) + (high as int * 256 + byte as int)) by (nonlinear_arith)
                requires
                    cur == prev * 256 + byte as int,
                    prev == m * q + acc as int,
                    acc as int == 0x100_0000_0000_0000_0000_0000_0000_0000int * hq + high as int,
                    m == 0x1_0000_0000_0000_0000_0000_0000_0000_0000int;
            assert((high as int) * 256 + (byte as int) < m) by (nonlinear_arith)
                requires
                    high < 0x100_0000_0000_0000_0000_0000_0000_0000u128,
                    byte < 256,
                    m == 0x1_0000_0000_0000_0000_0000_0000_0000_0000int;
            vstd::arithmetic::div_mod::lemma_mod_multiples_vanish(q * 256 + hq, high as int * 256 + byte as int, m);
            vstd::arithmetic::div_mod::lemma_small_mod((high as int * 256 + byte as int) as nat, m as nat);
        }
        acc = next;
        i = i + 1;
    }
    assert(b@.subrange(0, b@.len() as int) =~= b@);
    proof {
        let m: int = 0x1_0000_0000_0000_0000_0000_0000_0000_0000int;
        let u = unsigned_be(b@) as int;
        let y: int = if acc >= 0x8000_0000_0000_0000_0000_0000_0000_0000u128 { acc as int - m } else { acc as int };
        vstd::arithmetic::div_mod::lemma_fundamental_div_mod(u, m);
        let k = u / m + (if acc >= 0x8000_0000_0000_0000_0000_0000_0000_0000u128 { 1int } else { 0int });
        assert(u == y + k * m) by (nonlinear_arith)
            requires
                u == m * (u / m) + acc as int,
                y == (if acc >= 0x8000_0000_0000_0000_0000_0000_0000_0000u128 { acc as int - m } else { acc as int }),
                k == u / m + (if acc >= 0x8000_0000_0000_0000_0000_0000_0000_0000u128 { 1int } else { 0int });
        crate::numbers::lemma_wrap128_of(u, y, k);
    }
    if acc >= 0x8000_0000_0000_0000_0000_0000_0000_0000u128 {
        let low = acc - 0x8000_0000_0000_0000_0000_0000_0000_0000u128;
        (low as i128) - 0x7fff_ffff_ffff_ffff_ffff_ffff_ffff_ffff - 1
    } else {
        acc as i128
    }
}

/// The length a `length(...)` / `octet_length(...)` constraint function
/// measures: characters of text columns (bytes for other types) or bytes;
/// `None` for other functions.
pub open spec fn constraint_length(name: Seq<char>, actual: Seq<u8>, t: CqlType) -> Option<nat> {
    let l = lower(name);
    if l == "length"@ {
        if textual(t) { Some(lossy_text(actual).len()) } else { Some(actual.len()) }
    } else if l == "octet_length"@ {
        Some(actual.len())
    } else {
        None
    }
}

/// The length a constraint function measures (which the comparison then
/// converts to floating point).
pub fn constraint_function_length(name: &str, actual: &[u8], cql_type: &CqlType) -> (r: Option<usize>)
    ensures
        match r {
            Some(n) => constraint_length(name@, actual@, *cql_type) == Some(n as nat),
            None => constraint_length(name@, actual@, *cql_type) is None,
        },
{
    let c = chars_of(name);
    let l = string_from_chars(&lower_chars(&c));
    if str_eq(l.as_str(), "length") {
        match cql_type {
            CqlType::Ascii | CqlType::Varchar => {
                let text = utf8_lossy(actual);
                Some(text.as_str().unicode_len())
            },
            _ => Some(actual.len()),
        }
    } else if str_eq(l.as_str(), "octet_length") {
        Some(actual.len())
    } else {
        None
    }
}

// ─── one constraint against a write ─────────────────────────────────────

/// What a floating-point comparison compares with a constraint's literal:
/// a stored numeric value with its type, or a measured length.
#[derive(Debug)]
pub enum NumericCheck {
    Value { actual: Vec<u8>, column_type: CqlType },
    Length(usize),
}

/// What checking one constraint against a write decides: it holds, or the
/// floating-point comparison `check op term` decides, the write being
/// refused with `violation` where the comparison is false.
#[derive(Debug)]
pub enum ConstraintCheck {
    Passed,
    Compare { check: NumericCheck, op: ConstraintRelationOp, term: String, violation: String },
}

/// The first column named `name`.
pub open spec fn column_named(columns: Seq<ColumnMetadata>, name: Seq<char>) -> Option<ColumnMetadata>
    decreases columns.len(),
{
    if columns.len() == 0 {
        None
    } else if columns[0].name@ == name {
        Some(columns[0])
    } else {
        column_named(columns.drop_first(), name)
    }
}

fn find_column_named(columns: &[ColumnMetadata], name: &str) -> (r: Option<usize>)
    ensures
        match r {
            Some(i) => i < columns@.len() && column_named(columns@, name@) == Some(columns@[i as int]),
            None => column_named(columns@, name@) is None,
        },
{
    let mut i: usize = 0;
    assert(columns@.subrange(0, columns@.len() as int) =~= columns@);
    while i < columns.len()
        invariant
            i <= columns@.len(),
            column_named(columns@, name@) == column_named(columns@.subrange(i as int, columns@.len() as int), name@),
        decreases columns.len() - i,
    {
        let ghost rest = columns@.subrange(i as int, columns@.len() as int);
        assert(rest[0] == columns@[i as int]);
        if str_eq(columns[i].name.as_str(), name) {
            return Some(i);
        }
        assert(rest.drop_first() =~= columns@.subrange(i + 1, columns@.len() as int));
        i = i + 1;
    }
    None
}

/// The message of a comparison constraint a write violates.
pub open spec fn violation_message(column: Seq<char>, subject: Seq<char>, op: ConstraintRelationOp, term: Seq<char>) -> Seq<char> {
    "Column '"@ + column + "' violates CHECK "@ + subject + " "@ + op_debug(op) + " "@ + term
}

fn violation(column: &str, subject: &str, call: bool, op: ConstraintRelationOp, term: &str) -> (r: String)
    ensures
        r@ == violation_message(column@, if call { subject@ + "()"@ } else { subject@ }, op, term@),
{
    let mut m = String::new();
    push_str(&mut m, "Column '");
    push_str(&mut m, column);
    push_str(&mut m, "' violates CHECK ");
    push_str(&mut m, subject);
    if call {
        push_str(&mut m, "()");
    }
    push_str(&mut m, " ");
    push_str(&mut m, op_debug_exec(op));
    push_str(&mut m, " ");
    push_str(&mut m, term);
    m
}

/// `r` hands back the comparison of the stored value `actual` of type `t`.
pub open spec fn compares_value(r: ConstraintCheck, actual: Seq<u8>, t: CqlType, op: ConstraintRelationOp, term: Seq<char>, message: Seq<char>) -> bool {
    r matches ConstraintCheck::Compare { check: NumericCheck::Value { actual: a, column_type: ct }, op: o, term: tm, violation: v }
        && a@ == actual && ct == t && o == op && tm@ == term && v@ == message
}

/// `r` hands back the comparison of the length `n`.
pub open spec fn compares_length(r: ConstraintCheck, n: nat, op: ConstraintRelationOp, term: Seq<char>, message: Seq<char>) -> bool {
    r matches ConstraintCheck::Compare { check: NumericCheck::Length(l), op: o, term: tm, violation: v }
        && l == n && o == op && tm@ == term && v@ == message
}

/// What a comparison constraint decides for the stored value `actual` of type `t`.
pub open spec fn scalar_check(r: Result<ConstraintCheck, ExecutorError>, actual: Seq<u8>, t: CqlType,
    op: ConstraintRelationOp, term: Seq<char>, message: Seq<char>) -> bool {
    if numeric(t) {
        r matches Ok(c) && compares_value(c, actual, t, op, term, message)
    } else {
        match scalar_verdict(actual, t, term, op) {
            Err(e) => r matches Err(ExecutorError::InvalidQuery(m)) && m@ == e,
            Ok(true) => r matches Ok(ConstraintCheck::Passed),
            Ok(false) => r matches Err(ExecutorError::InvalidQuery(m)) && m@ == message,
        }
    }
}

/// What a function constraint `name(..) op term` decides for the stored value `actual` of type `t`.
pub open spec fn function_check(r: Result<ConstraintCheck, ExecutorError>, name: Seq<char>, actual: Seq<u8>, t: CqlType,
    op: ConstraintRelationOp, term: Seq<char>, message: Seq<char>) -> bool {
    if eq_ignore_case(name, "regexp"@) {
        match regexp_verdict(actual, t, term, op) {
            Err(e) => r matches Err(ExecutorError::InvalidQuery(m)) && m@ == e,
            Ok(true) => r matches Ok(ConstraintCheck::Passed),
            Ok(false) => r matches Err(ExecutorError::InvalidQuery(m)) && m@ == message,
        }
    } else {
        match constraint_length(name, actual, t) {
            None => r matches Err(ExecutorError::InvalidQuery(m)) && m@ == "Unsupported CHECK constraint function '"@ + name + "'"@,
            Some(n) => r matches Ok(c) && compares_length(c, n, op, term, message),
        }
    }
}

/// The column a function constraint measures: its first argument, else the constrained column.
pub open spec fn function_target(args: Seq<String>, column: Seq<char>) -> Seq<char> {
    if args.len() > 0 { args[0]@ } else { column }
}

/// Checks one constraint of `column` against the values a write stores
/// (`values`, by column; the first entry of a name counts), among the
/// table's `columns`; without `require_all` a constraint on a column the
/// write leaves out holds. A comparison made in floating point is handed
/// back for the caller to make.
pub fn check_column_constraint(
    columns: &[ColumnMetadata],
    column: &ColumnMetadata,
    constraint: &ColumnConstraint,
    values: &[(String, Option<Vec<u8>>)],
    require_all: bool,
) -> (r: Result<ConstraintCheck, ExecutorError>)
    ensures
        match *constraint {
            ColumnConstraint::NotNull => if written_value(values@, column.name@) matches Some(Some(_)) {
                r matches Ok(ConstraintCheck::Passed)
            } else {
                r matches Err(ExecutorError::InvalidQuery(m)) && m@ == "Column '"@ + column.name@ + "' violates CHECK NOT NULL"@
            },
            ColumnConstraint::Scalar { column: cc, op, term } => if !require_all && written_value(values@, cc@) is None {
                r matches Ok(ConstraintCheck::Passed)
            } else {
                match column_named(columns@, cc@) {
                    None => r matches Err(ExecutorError::InvalidQuery(m))
                        && m@ == "CHECK constraint references unknown column '"@ + cc@ + "'"@,
                    Some(target) => match written_value(values@, cc@) {
                        Some(Some(actual)) => scalar_check(r, actual, target.column_type, op, term@,
                            violation_message(column.name@, cc@, op, term@)),
                        _ => r matches Ok(ConstraintCheck::Passed),
                    },
                }
            },
            ColumnConstraint::Function { name, args, op, term } => {
                let tn = function_target(args@, column.name@);
                if !require_all && written_value(values@, tn) is None {
                    r matches Ok(ConstraintCheck::Passed)
                } else {
                    match column_named(columns@, tn) {
                        None => r matches Err(ExecutorError::InvalidQuery(m))
                            && m@ == "CHECK constraint function '"@ + name@ + "' references unknown column '"@ + tn + "'"@,
                        Some(target) => match written_value(values@, tn) {
                            Some(Some(actual)) => function_check(r, name@, actual, target.column_type, op, term@,
                                violation_message(column.name@, name@ + "()"@, op, term@)),
                            _ => r matches Ok(ConstraintCheck::Passed),
                        },
                    }
                }
            },
            ColumnConstraint::UnaryFunction { name, args } =>
                match unary_verdict(column.name@, column.column_type, name@, args@.len(), values@, require_all) {
                    Ok(_) => r matches Ok(ConstraintCheck::Passed),
                    Err(e) => r matches Err(ExecutorError::InvalidQuery(m)) && m@ == e,
                },
        },
{
    match constraint {
        ColumnConstraint::NotNull => {
            match find_written(values, &column.name) {
                Some(i) => {
                    if values[i].1.is_some() {
                        return Ok(ConstraintCheck::Passed);
                    }
                },
                None => {},
            }
            Err(quoted_error("Column '", column.name.as_str(), "' violates CHECK NOT NULL"))
        },
        ColumnConstraint::Scalar { column: cc, op, term } => {
            let found = find_written(values, cc);
            if !require_all && found.is_none() {
                return Ok(ConstraintCheck::Passed);
            }
            let target = match find_column_named(columns, cc.as_str()) {
                Some(t) => &columns[t],
                None => return Err(quoted_error("CHECK constraint references unknown column '", cc.as_str(), "'")),
            };
            let actual = match found {
                Some(i) => match &values[i].1 {
                    Some(v) => v,
                    None => return Ok(ConstraintCheck::Passed),
                },
                None => return Ok(ConstraintCheck::Passed),
            };
            let message = violation(column.name.as_str(), cc.as_str(), false, *op, term.as_str());
            assert(cc@ == if false { cc@ + "()"@ } else { cc@ });
            if is_numeric(&target.column_type) {
                let check = NumericCheck::Value { actual: crate::relations::bytes_copy(actual.as_slice()), column_type: target.column_type.duplicate() };
                return Ok(ConstraintCheck::Compare { check, op: *op, term: copy_text(term.as_str()), violation: message });
            }
            match compare_constraint_value(actual.as_slice(), &target.column_type, term.as_str(), *op) {
                Ok(true) => Ok(ConstraintCheck::Passed),
                Ok(false) => Err(ExecutorError::InvalidQuery(message)),
                Err(e) => Err(e),
            }
        },
        ColumnConstraint::Function { name, args, op, term } => {
            let tn: &str = if args.len() > 0 { args[0].as_str() } else { column.name.as_str() };
            let tn_string = copy_text(tn);
            let found = find_written(values, &tn_string);
            if !require_all && found.is_none() {
                return Ok(ConstraintCheck::Passed);
            }
            let target = match find_column_named(columns, tn) {
                Some(t) => &columns[t],
                None => {
                    let mut m = String::new();
                    push_str(&mut m, "CHECK constraint function '");
                    push_str(&mut m, name.as_str());
                    push_str(&mut m, "' references unknown column '");
                    push_str(&mut m, tn);
                    push_str(&mut m, "'");
                    return Err(ExecutorError::InvalidQuery(m));
                },
            };
            let actual = match found {
                Some(i) => match &values[i].1 {
                    Some(v) => v,
                    None => return Ok(ConstraintCheck::Passed),
                },
                None => return Ok(ConstraintCheck::Passed),
            };
            let message = violation(column.name.as_str(), name.as_str(), true, *op, term.as_str());
            let nc = chars_of(name.as_str());
            let regexp = chars_of("regexp");
            if crate::chars::eq_ignore_case_exec(&nc, &regexp) {
                return match compare_regexp_constraint(actual.as_slice(), &target.column_type, term.as_str(), *op) {
                    Ok(true) => Ok(ConstraintCheck::Passed),
                    Ok(false) => Err(ExecutorError::InvalidQuery(message)),
                    Err(e) => Err(e),
                };
            }
            match constraint_function_length(name.as_str(), actual.as_slice(), &target.column_type) {
                Some(n) => Ok(ConstraintCheck::Compare { check: NumericCheck::Length(n), op: *op, term: copy_text(term.as_str()), violation: message }),
                None => Err(quoted_error("Unsupported CHECK constraint function '", name.as_str(), "'")),
            }
        },
        ColumnConstraint::UnaryFunction { name, args } => {
            match validate_unary_constraint(column, name.as_str(), args.as_slice(), values, require_all) {
                Ok(()) => Ok(ConstraintCheck::Passed),
                Err(e) => Err(e),
            }
        },
    }
}

fn is_numeric(t: &CqlType) -> (r: bool)
    ensures
        r == numeric(*t),
{
    match t {
        CqlType::Tinyint | CqlType::Smallint | CqlType::Int | CqlType::Bigint | CqlType::Counter | CqlType::Timestamp
        | CqlType::Time | CqlType::Float | CqlType::Double | CqlType::Decimal | CqlType::Varint => true,
        _ => false,
    }
}

fn copy_text(s: &str) -> (r: String)
    ensures
        r@ == s@,
{
    let mut out = String::new();
    push_str(&mut out, s);
    out
}

} // verus!

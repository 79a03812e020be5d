//! What a recognised Java function body computes, stated over value views.
use vstd::prelude::*;
use crate::chars::{trim, lower, upper, find, rfind, starts_with, ends_with, replace};
use crate::java_body::{JavaCompatComparison, JavaCompatLiteral, JavaCompatOperand, JavaCompatUdfBody, Body, Lit, Operand};
use crate::text::{int_decimal, nat_decimal};
use crate::udf_value::{UdfVal, udf_debug};

verus! {

/// Result of running a function: a value, or an error message.
pub type UdfOutcome = Result<UdfVal, Seq<char>>;

/// The argument at position `i`, if there is one.
pub open spec fn arg_get(args: Seq<UdfVal>, i: int) -> Option<UdfVal> {
    if 0 <= i < args.len() { Some(args[i]) } else { None }
}

/// The argument at position `i`, or null when there is none.
pub open spec fn arg_or_null(args: Seq<UdfVal>, i: int) -> UdfVal {
    if 0 <= i < args.len() { args[i] } else { UdfVal::Null }
}

/// The two arguments of a binary body; a missing one is an error.
pub open spec fn binary_args(args: Seq<UdfVal>, l: int, r: int) -> Result<(UdfVal, UdfVal), Seq<char>> {
    if !(0 <= l < args.len()) {
        Err("Missing left Java UDF argument"@)
    } else if !(0 <= r < args.len()) {
        Err("Missing right Java UDF argument"@)
    } else {
        Ok((args[l], args[r]))
    }
}

/// The error for two operands of the wrong kinds.
pub open spec fn pair_error(prefix: Seq<char>, l: UdfVal, r: UdfVal) -> Seq<char> {
    prefix + udf_debug(l) + " and "@ + udf_debug(r)
}

/// A text-to-text method applied to an optional argument.
pub enum TextMap {
    Lower,
    Upper,
    Trim,
}

/// The image of `s` under a text-to-text method.
pub open spec fn text_map(m: TextMap, s: Seq<char>) -> Seq<char> {
    match m {
        TextMap::Lower => lower(s),
        TextMap::Upper => upper(s),
        TextMap::Trim => trim(s),
    }
}

/// Applies a text method to an argument: text maps, null or missing gives null.
pub open spec fn map_text_arg(v: Option<UdfVal>, m: TextMap) -> UdfOutcome {
    match v {
        Some(UdfVal::Text(s)) => Ok(UdfVal::Text(text_map(m, s))),
        Some(UdfVal::Null) | None => Ok(UdfVal::Null),
        Some(other) => Err("Expected text argument, got "@ + udf_debug(other)),
    }
}

/// `length()` of an argument, in characters.
pub open spec fn text_length(v: Option<UdfVal>) -> UdfOutcome {
    match v {
        Some(UdfVal::Text(s)) => Ok(UdfVal::Int(s.len() as i32)),
        Some(UdfVal::Null) | None => Ok(UdfVal::Null),
        Some(other) => Err("Expected text argument, got "@ + udf_debug(other)),
    }
}

/// `isEmpty()` of an argument.
pub open spec fn text_is_empty(v: Option<UdfVal>) -> UdfOutcome {
    match v {
        Some(UdfVal::Text(s)) => Ok(UdfVal::Boolean(s.len() == 0)),
        Some(UdfVal::Null) | None => Ok(UdfVal::Null),
        Some(other) => Err("Expected text argument, got "@ + udf_debug(other)),
    }
}

/// A binary text predicate.
pub enum TextPredicate {
    Contains,
    StartsWith,
    EndsWith,
}

/// Whether the predicate holds of `a` and `b`.
pub open spec fn text_predicate(p: TextPredicate, a: Seq<char>, b: Seq<char>) -> bool {
    match p {
        TextPredicate::Contains => find(a, b) is Some,
        TextPredicate::StartsWith => starts_with(a, b),
        TextPredicate::EndsWith => ends_with(a, b),
    }
}

/// A binary text predicate over two values.
pub open spec fn text_predicate_values(p: TextPredicate, l: UdfVal, r: UdfVal) -> UdfOutcome {
    match (l, r) {
        (UdfVal::Text(a), UdfVal::Text(b)) => Ok(UdfVal::Boolean(text_predicate(p, a, b))),
        (UdfVal::Null, _) | (_, UdfVal::Null) => Ok(UdfVal::Null),
        _ => Err(pair_error("Expected text arguments, got "@, l, r)),
    }
}

/// A value usable as a character position: any integer that fits in `isize`.
pub open spec fn index_value(v: UdfVal) -> Option<int> {
    match v {
        UdfVal::Tinyint(x) => Some(x as int),
        UdfVal::Smallint(x) => Some(x as int),
        UdfVal::Int(x) => Some(x as int),
        UdfVal::Long(x) => if isize::MIN <= x <= isize::MAX { Some(x as int) } else { None },
        _ => None,
    }
}

/// The characters of `s` from `begin` to `end`, or the bounds error.
pub open spec fn substring_chars(s: Seq<char>, begin: int, end: int) -> UdfOutcome {
    if begin < 0 || end < begin || end > s.len() {
        Err("Substring bounds out of range: begin="@ + int_decimal(begin) + ", end="@ + int_decimal(end)
            + ", length="@ + nat_decimal(s.len()))
    } else {
        Ok(UdfVal::Text(s.subrange(begin, end)))
    }
}

/// How an optional value shows in an error message.
pub open spec fn opt_debug(v: Option<UdfVal>) -> Seq<char> {
    match v {
        Some(x) => "Some("@ + udf_debug(x) + ")"@,
        None => "None"@,
    }
}

/// `substring(begin[, end])` over values.
pub open spec fn substring_values(value: UdfVal, begin: UdfVal, end: Option<UdfVal>) -> UdfOutcome {
    if (value is Text && begin is Null) || (value is Text && end == Some(UdfVal::Null)) || value is Null {
        Ok(UdfVal::Null)
    } else if let UdfVal::Text(s) = value {
        match index_value(begin) {
            None => Err("Expected int substring begin argument, got "@ + udf_debug(begin)),
            Some(b) => match end {
                None => substring_chars(s, b, s.len() as int),
                Some(e) => match index_value(e) {
                    None => Err("Expected int substring end argument, got "@ + udf_debug(e)),
                    Some(x) => substring_chars(s, b, x),
                },
            },
        }
    } else {
        Err("Expected text and int substring arguments, got "@ + udf_debug(value) + ", "@ + udf_debug(begin)
            + ", "@ + opt_debug(end))
    }
}

/// `indexOf` / `lastIndexOf` over values: the character position, or -1.
pub open spec fn index_of_values(value: UdfVal, needle: UdfVal, last: bool) -> UdfOutcome {
    match (value, needle) {
        (UdfVal::Text(a), UdfVal::Text(b)) => {
            let found = if last { rfind(a, b) } else { find(a, b) };
            Ok(UdfVal::Int(match found { Some(i) => i as i32, None => -1i32 }))
        },
        (UdfVal::Null, _) | (_, UdfVal::Null) => Ok(UdfVal::Null),
        _ => Err(pair_error("Expected text index arguments, got "@, value, needle)),
    }
}

/// `replace(target, replacement)` over values.
pub open spec fn replace_values(value: UdfVal, target: UdfVal, replacement: UdfVal) -> UdfOutcome {
    match (value, target, replacement) {
        (UdfVal::Text(a), UdfVal::Text(b), UdfVal::Text(c)) => Ok(UdfVal::Text(replace(a, b, c))),
        (UdfVal::Null, _, _) | (_, UdfVal::Null, _) | (_, _, UdfVal::Null) => Ok(UdfVal::Null),
        _ => Err("Expected text replace arguments, got "@ + udf_debug(value) + ", "@ + udf_debug(target)
            + ", "@ + udf_debug(replacement)),
    }
}

/// The value an operand stands for in text methods and comparisons:
/// integer literals are bigints.
pub open spec fn runtime_operand(args: Seq<UdfVal>, op: Operand) -> UdfVal {
    match op {
        JavaCompatOperand::Arg(i) => arg_or_null(args, i as int),
        JavaCompatOperand::Literal(JavaCompatLiteral::Int(v)) => UdfVal::Long(v),
        JavaCompatOperand::Literal(JavaCompatLiteral::Text(s)) => UdfVal::Text(s),
        JavaCompatOperand::Literal(JavaCompatLiteral::Boolean(b)) => UdfVal::Boolean(b),
    }
}

/// The integer CQL types of function results.
pub enum IntKind {
    Tinyint,
    Smallint,
    Int,
    Bigint,
    Counter,
}

/// The integer kind a return type names, if any.
pub open spec fn int_kind(rt: Seq<char>) -> Option<IntKind> {
    if rt == "tinyint"@ {
        Some(IntKind::Tinyint)
    } else if rt == "smallint"@ {
        Some(IntKind::Smallint)
    } else if rt == "int"@ {
        Some(IntKind::Int)
    } else if rt == "bigint"@ {
        Some(IntKind::Bigint)
    } else if rt == "counter"@ {
        Some(IntKind::Counter)
    } else {
        None
    }
}

/// The CQL name of an integer kind.
pub open spec fn kind_name(k: IntKind) -> Seq<char> {
    match k {
        IntKind::Tinyint => "tinyint"@,
        IntKind::Smallint => "smallint"@,
        IntKind::Int => "int"@,
        IntKind::Bigint => "bigint"@,
        IntKind::Counter => "counter"@,
    }
}

/// Smallest value of a kind.
pub open spec fn kind_min(k: IntKind) -> int {
    match k {
        IntKind::Tinyint => i8::MIN as int,
        IntKind::Smallint => i16::MIN as int,
        IntKind::Int => i32::MIN as int,
        _ => i64::MIN as int,
    }
}

/// Largest value of a kind.
pub open spec fn kind_max(k: IntKind) -> int {
    match k {
        IntKind::Tinyint => i8::MAX as int,
        IntKind::Smallint => i16::MAX as int,
        IntKind::Int => i32::MAX as int,
        _ => i64::MAX as int,
    }
}

/// The integer a value of kind `k` holds.
pub open spec fn as_kind(k: IntKind, v: UdfVal) -> Option<int> {
    match (k, v) {
        (IntKind::Tinyint, UdfVal::Tinyint(x)) => Some(x as int),
        (IntKind::Smallint, UdfVal::Smallint(x)) => Some(x as int),
        (IntKind::Int, UdfVal::Int(x)) => Some(x as int),
        (IntKind::Bigint, UdfVal::Long(x)) => Some(x as int),
        (IntKind::Counter, UdfVal::Counter(x)) => Some(x as int),
        _ => None,
    }
}

/// The value of kind `k` holding `x`.
pub open spec fn of_kind(k: IntKind, x: int) -> UdfVal {
    match k {
        IntKind::Tinyint => UdfVal::Tinyint(x as i8),
        IntKind::Smallint => UdfVal::Smallint(x as i16),
        IntKind::Int => UdfVal::Int(x as i32),
        IntKind::Bigint => UdfVal::Long(x as i64),
        IntKind::Counter => UdfVal::Counter(x as i64),
    }
}

/// `x` clamped to the range of kind `k` (saturating arithmetic).
pub open spec fn saturate(k: IntKind, x: int) -> int {
    if x < kind_min(k) { kind_min(k) } else if x > kind_max(k) { kind_max(k) } else { x }
}

/// Quotient rounded toward zero.
pub open spec fn trunc_div(x: int, d: int) -> int {
    if x == 0 { 0 } else if x > 0 && d > 0 { x / d } else if x < 0 && d < 0 { (-x) / (-d) }
    else if x < 0 { -((-x) / d) } else { -(x / (-d)) }
}

/// Remainder with the sign of the dividend.
pub open spec fn trunc_rem(x: int, d: int) -> int {
    if x == 0 { 0 } else if x > 0 && d > 0 { x % d } else if x < 0 && d < 0 { -((-x) % (-d)) }
    else if x < 0 { -((-x) % d) } else { x % (-d) }
}

/// The arithmetic operators.
pub enum ArithOp {
    Add,
    Subtract,
    Multiply,
    Divide,
    Remainder,
}

/// The name an operator's "not supported" error uses.
pub open spec fn op_word(op: ArithOp) -> Seq<char> {
    match op {
        ArithOp::Add => "addition"@,
        ArithOp::Subtract => "subtraction"@,
        ArithOp::Multiply => "multiplication"@,
        ArithOp::Divide => "division"@,
        ArithOp::Remainder => "remainder"@,
    }
}

/// An operator on two integers of kind `k`: saturating `+ - *`, wrapping
/// `/ %` (quotient toward zero), and an error on division by zero.
pub open spec fn int_arith(op: ArithOp, k: IntKind, a: int, b: int) -> UdfOutcome {
    match op {
        ArithOp::Add => Ok(of_kind(k, saturate(k, a + b))),
        ArithOp::Subtract => Ok(of_kind(k, saturate(k, a - b))),
        ArithOp::Multiply => Ok(of_kind(k, saturate(k, a * b))),
        ArithOp::Divide => if b == 0 {
            Err("Division by zero"@)
        } else if a == kind_min(k) && b == -1 {
            Ok(of_kind(k, kind_min(k)))
        } else {
            Ok(of_kind(k, trunc_div(a, b)))
        },
        ArithOp::Remainder => if b == 0 {
            Err("Division by zero"@)
        } else if a == kind_min(k) && b == -1 {
            Ok(of_kind(k, 0))
        } else {
            Ok(of_kind(k, trunc_rem(a, b)))
        },
    }
}

/// An arithmetic operator over two values, for a function returning `rt`.
/// Integer types compute; `blob` and text concatenate under `+`; floating
/// types accept only null operands here.
pub open spec fn arith_values(op: ArithOp, rt: Seq<char>, l: UdfVal, r: UdfVal) -> UdfOutcome {
    match int_kind(rt) {
        Some(k) => match (as_kind(k, l), as_kind(k, r)) {
            (Some(a), Some(b)) => int_arith(op, k, a, b),
            _ => if l is Null || r is Null {
                Ok(UdfVal::Null)
            } else {
                Err(pair_error("Expected "@ + kind_name(k) + " arguments, got "@, l, r))
            },
        },
        None => if rt == "float"@ || rt == "double"@ {
            if l is Null || r is Null {
                Ok(UdfVal::Null)
            } else {
                Err(pair_error("Expected "@ + rt + " arguments, got "@, l, r))
            }
        } else if op is Add && rt == "blob"@ {
            match (l, r) {
                (UdfVal::Blob(a), UdfVal::Blob(b)) => Ok(UdfVal::Blob(a + b)),
                (UdfVal::Null, _) | (_, UdfVal::Null) => Ok(UdfVal::Null),
                _ => Err(pair_error("Expected blob arguments, got "@, l, r)),
            }
        } else if op is Add {
            match (l, r) {
                (UdfVal::Text(a), UdfVal::Text(b)) => Ok(UdfVal::Text(a + b)),
                (UdfVal::Null, _) | (_, UdfVal::Null) => Ok(UdfVal::Null),
                _ => Err(pair_error("Expected text arguments, got "@, l, r)),
            }
        } else {
            Err("Java "@ + op_word(op) + " UDF is not supported for return type "@ + rt)
        },
    }
}

/// The value of a literal operand in arithmetic: integer literals take the
/// integer return type (and must fit in it), else they are text.
pub open spec fn literal_value(rt: Seq<char>, lit: Lit) -> UdfOutcome {
    match lit {
        JavaCompatLiteral::Int(v) => match int_kind(rt) {
            Some(k) => if kind_min(k) <= v <= kind_max(k) {
                Ok(of_kind(k, v as int))
            } else {
                Err("Integer literal "@ + int_decimal(v as int) + " is out of range for "@ + kind_name(k))
            },
            None => if rt == "float"@ || rt == "double"@ {
                Err("Java "@ + rt + " literals are not supported"@)
            } else {
                Ok(UdfVal::Text(int_decimal(v as int)))
            },
        },
        JavaCompatLiteral::Text(s) => Ok(UdfVal::Text(s)),
        JavaCompatLiteral::Boolean(b) => Ok(UdfVal::Boolean(b)),
    }
}

/// The value of an operand in arithmetic.
pub open spec fn operand_value(rt: Seq<char>, args: Seq<UdfVal>, op: Operand) -> UdfOutcome {
    match op {
        JavaCompatOperand::Arg(i) => Ok(arg_or_null(args, i as int)),
        JavaCompatOperand::Literal(l) => literal_value(rt, l),
    }
}

/// Powers of two.
pub open spec fn two_pow(e: nat) -> nat
    decreases e,
{
    if e == 0 { 1 } else { 2 * two_pow((e - 1) as nat) }
}

/// `m` rounded to a multiple of `u`, ties to the even multiple.
pub open spec fn round_to_unit(m: nat, u: nat) -> nat {
    let q = m / u;
    let r = m % u;
    if 2 * r > u || (2 * r == u && q % 2 == 1) { (q + 1) * u } else { q * u }
}

/// `m` rounded to 53 significant bits, looking at the binade of `2^e` spacing first.
pub open spec fn round_mag_from(m: nat, e: nat) -> nat
    decreases 64 - e,
{
    if e >= 64 || m < 9007199254740992 * two_pow(e) {
        round_to_unit(m, two_pow(e))
    } else {
        round_mag_from(m, e + 1)
    }
}

/// The nearest double to the integer `x` (ties to even), as an integer.
pub open spec fn to_double(x: int) -> int {
    let m = if x < 0 { -x } else { x };
    let r = if m < 9007199254740992 { m as nat } else { round_mag_from(m as nat, 1) };
    if x < 0 { -r } else { r as int }
}

/// The number a value compares as: integers converted to double.
pub open spec fn numeric_value(v: UdfVal) -> Option<int> {
    match v {
        UdfVal::Tinyint(x) => Some(to_double(x as int)),
        UdfVal::Smallint(x) => Some(to_double(x as int)),
        UdfVal::Int(x) => Some(to_double(x as int)),
        UdfVal::Long(x) => Some(to_double(x as int)),
        UdfVal::Counter(x) => Some(to_double(x as int)),
        _ => None,
    }
}

/// Whether `a op b`.
pub open spec fn holds(op: JavaCompatComparison, a: int, b: int) -> bool {
    match op {
        JavaCompatComparison::Eq => a == b,
        JavaCompatComparison::Ne => a != b,
        JavaCompatComparison::Gt => a > b,
        JavaCompatComparison::Gte => a >= b,
        JavaCompatComparison::Lt => a < b,
        JavaCompatComparison::Lte => a <= b,
    }
}

/// A comparison over two values, for a function that must return boolean.
pub open spec fn compare_values(rt: Seq<char>, l: UdfVal, r: UdfVal, op: JavaCompatComparison) -> UdfOutcome {
    if rt != "boolean"@ {
        Err("Java comparison UDF must return boolean, got "@ + rt)
    } else {
        match (l, r) {
            (UdfVal::Null, _) | (_, UdfVal::Null) => Ok(UdfVal::Null),
            (UdfVal::Boolean(a), UdfVal::Boolean(b)) => match op {
                JavaCompatComparison::Eq => Ok(UdfVal::Boolean(a == b)),
                JavaCompatComparison::Ne => Ok(UdfVal::Boolean(a != b)),
                _ => Err("Java boolean comparison only supports == and !="@),
            },
            (UdfVal::Text(a), UdfVal::Text(b)) => match op {
                JavaCompatComparison::Eq => Ok(UdfVal::Boolean(a == b)),
                JavaCompatComparison::Ne => Ok(UdfVal::Boolean(a != b)),
                _ => Err("Java text comparison only supports == and !="@),
            },
            _ => match numeric_value(l) {
                None => Err("Expected numeric comparison argument, got "@ + udf_debug(l)),
                Some(a) => match numeric_value(r) {
                    None => Err("Expected numeric comparison argument, got "@ + udf_debug(r)),
                    Some(b) => Ok(UdfVal::Boolean(holds(op, a, b))),
                },
            },
        }
    }
}

/// Comparing two `int` arguments in a function returning boolean gives the
/// comparison of their values, left argument first: `a <= b` is true
/// exactly when `a` is at most `b`, and so on for each operator.
pub proof fn lemma_int_argument_comparisons(a: i32, b: i32)
    ensures
        compare_values("boolean"@, UdfVal::Int(a), UdfVal::Int(b), JavaCompatComparison::Lte) == Ok::<UdfVal, Seq<char>>(UdfVal::Boolean(a <= b)),
        compare_values("boolean"@, UdfVal::Int(a), UdfVal::Int(b), JavaCompatComparison::Lt) == Ok::<UdfVal, Seq<char>>(UdfVal::Boolean(a < b)),
        compare_values("boolean"@, UdfVal::Int(a), UdfVal::Int(b), JavaCompatComparison::Gte) == Ok::<UdfVal, Seq<char>>(UdfVal::Boolean(a >= b)),
        compare_values("boolean"@, UdfVal::Int(a), UdfVal::Int(b), JavaCompatComparison::Gt) == Ok::<UdfVal, Seq<char>>(UdfVal::Boolean(a > b)),
        compare_values("boolean"@, UdfVal::Int(a), UdfVal::Int(b), JavaCompatComparison::Eq) == Ok::<UdfVal, Seq<char>>(UdfVal::Boolean(a == b)),
        compare_values("boolean"@, UdfVal::Int(a), UdfVal::Int(b), JavaCompatComparison::Ne) == Ok::<UdfVal, Seq<char>>(UdfVal::Boolean(a != b)),
{
    assert(to_double(a as int) == a as int);
    assert(to_double(b as int) == b as int);
}

/// For numeric arguments the comparisons agree with one another: `<=` is
/// `<` or `==`, `>=` is `>` or `==`, `!=` is not `==`, and `>` (`>=`) is
/// `<` (`<=`) with the arguments swapped.
pub proof fn lemma_numeric_comparisons_agree(l: UdfVal, r: UdfVal)
    requires
        numeric_value(l) is Some,
        numeric_value(r) is Some,
    ensures
        ({
            let t = Ok::<UdfVal, Seq<char>>(UdfVal::Boolean(true));
            let rt = "boolean"@;
            let lt = compare_values(rt, l, r, JavaCompatComparison::Lt) == t;
            let eq = compare_values(rt, l, r, JavaCompatComparison::Eq) == t;
            let gt = compare_values(rt, l, r, JavaCompatComparison::Gt) == t;
            &&& compare_values(rt, l, r, JavaCompatComparison::Lte) == Ok::<UdfVal, Seq<char>>(UdfVal::Boolean(lt || eq))
            &&& compare_values(rt, l, r, JavaCompatComparison::Gte) == Ok::<UdfVal, Seq<char>>(UdfVal::Boolean(gt || eq))
            &&& compare_values(rt, l, r, JavaCompatComparison::Ne) == Ok::<UdfVal, Seq<char>>(UdfVal::Boolean(!eq))
            &&& compare_values(rt, l, r, JavaCompatComparison::Gt) == compare_values(rt, r, l, JavaCompatComparison::Lt)
            &&& compare_values(rt, l, r, JavaCompatComparison::Gte) == compare_values(rt, r, l, JavaCompatComparison::Lte)
            &&& (lt || eq || gt) && !(lt && eq) && !(lt && gt) && !(eq && gt)
        }),
{
}

/// Arithmetic on two `int` arguments of a function returning `int`:
/// `+`, `-` and `*` give the exact result when it fits and clamp it to the
/// nearest bound otherwise; `/` and `%` give a quotient and remainder that
/// rebuild the dividend (`q * b + r == a`), with the remainder smaller than
/// the divisor and carrying the dividend's sign; dividing by zero fails.
pub proof fn lemma_int_arithmetic(a: i32, b: i32)
    ensures
        ({
            let rt = "int"@;
            let l = UdfVal::Int(a);
            let r = UdfVal::Int(b);
            &&& i32::MIN <= a + b <= i32::MAX ==> arith_values(ArithOp::Add, rt, l, r) == Ok::<UdfVal, Seq<char>>(UdfVal::Int((a + b) as i32))
            &&& a + b > i32::MAX ==> arith_values(ArithOp::Add, rt, l, r) == Ok::<UdfVal, Seq<char>>(UdfVal::Int(i32::MAX))
            &&& a + b < i32::MIN ==> arith_values(ArithOp::Add, rt, l, r) == Ok::<UdfVal, Seq<char>>(UdfVal::Int(i32::MIN))
            &&& i32::MIN <= a - b <= i32::MAX ==> arith_values(ArithOp::Subtract, rt, l, r) == Ok::<UdfVal, Seq<char>>(UdfVal::Int((a - b) as i32))
            &&& i32::MIN <= a * b <= i32::MAX ==> arith_values(ArithOp::Multiply, rt, l, r) == Ok::<UdfVal, Seq<char>>(UdfVal::Int((a * b) as i32))
            &&& b == 0 ==> arith_values(ArithOp::Divide, rt, l, r) is Err && arith_values(ArithOp::Remainder, rt, l, r) is Err
            &&& b != 0 && !(a == i32::MIN && b == -1) ==> (
                arith_values(ArithOp::Divide, rt, l, r) matches Ok(UdfVal::Int(q))
                && arith_values(ArithOp::Remainder, rt, l, r) matches Ok(UdfVal::Int(m))
                && q * b + m == a
                && (if m < 0 { -(m as int) } else { m as int }) < (if b < 0 { -(b as int) } else { b as int })
                && (a >= 0 ==> m >= 0) && (a <= 0 ==> m <= 0))
        }),
{
    reveal_strlit("int");
    reveal_strlit("tinyint");
    reveal_strlit("smallint");
    assert(int_kind("int"@) == Some(IntKind::Int));
    if b != 0 && !(a == i32::MIN && b == -1) {
        lemma_div_rem_reconstruct(a as int, b as int);
        lemma_rem_smaller(a as int, b as int);
        let q = trunc_div(a as int, b as int);
        let m = trunc_rem(a as int, b as int);
        lemma_quotient_fits(a as int, b as int);
        assert(i32::MIN <= q <= i32::MAX);
        assert(i32::MIN <= m <= i32::MAX);
    }
}

proof fn lemma_rem_smaller(a: int, b: int)
    requires
        b != 0,
    ensures
        (if trunc_rem(a, b) < 0 { -trunc_rem(a, b) } else { trunc_rem(a, b) }) < (if b < 0 { -b } else { b }),
{
    if a > 0 && b > 0 {
        assert(a % b < b) by (nonlinear_arith) requires b > 0;
        assert(a % b >= 0) by (nonlinear_arith) requires b > 0;
    } else if a < 0 && b < 0 {
        let x = -a;
        let d = -b;
        assert(x % d < d && x % d >= 0) by (nonlinear_arith) requires d > 0;
    } else if a < 0 {
        let x = -a;
        assert(x % b < b && x % b >= 0) by (nonlinear_arith) requires b > 0;
    } else if a > 0 {
        let d = -b;
        assert(a % d < d && a % d >= 0) by (nonlinear_arith) requires d > 0;
    }
}

proof fn lemma_quotient_fits(a: int, b: int)
    requires
        b != 0,
        i32::MIN <= a <= i32::MAX,
        !(a == i32::MIN && b == -1),
    ensures
        i32::MIN <= trunc_div(a, b) <= i32::MAX,
{
    if a > 0 && b > 0 {
        assert(0 <= a / b <= a) by (nonlinear_arith) requires a > 0, b > 0;
    } else if a < 0 && b < 0 {
        let x = -a;
        let d = -b;
        assert(0 <= x / d <= x) by (nonlinear_arith) requires x > 0, d > 0;
        if d == 1 {
            assert(x / d == x) by (nonlinear_arith) requires d == 1;
        } else {
            assert(x / d <= x / 2) by (nonlinear_arith) requires x > 0, d >= 2;
        }
    } else if a < 0 {
        let x = -a;
        assert(0 <= x / b <= x) by (nonlinear_arith) requires x > 0, b > 0;
    } else if a > 0 {
        let d = -b;
        assert(0 <= a / d <= a) by (nonlinear_arith) requires a > 0, d > 0;
    }
}

/// Unary minus: saturating on the integer return types.
pub open spec fn negate_value(rt: Seq<char>, v: UdfVal) -> UdfOutcome {
    if v is Null {
        Ok(UdfVal::Null)
    } else {
        match int_kind(rt) {
            Some(k) => match as_kind(k, v) {
                Some(x) => Ok(of_kind(k, saturate(k, -x))),
                None => Err("Java unary negation UDF is not supported for return type "@ + rt + " and argument "@ + udf_debug(v)),
            },
            None => Err("Java unary negation UDF is not supported for return type "@ + rt + " and argument "@ + udf_debug(v)),
        }
    }
}

/// `!value` for a function returning boolean.
pub open spec fn not_value(rt: Seq<char>, v: Option<UdfVal>) -> UdfOutcome {
    if rt != "boolean"@ {
        Err("Java boolean NOT UDF must return boolean, got "@ + rt)
    } else {
        match v {
            Some(UdfVal::Boolean(b)) => Ok(UdfVal::Boolean(!b)),
            Some(UdfVal::Null) | None => Ok(UdfVal::Null),
            Some(other) => Err("Expected boolean argument, got "@ + udf_debug(other)),
        }
    }
}

/// `a && b` or `a || b` for a function returning boolean.
pub open spec fn boolean_binary(rt: Seq<char>, args: Seq<UdfVal>, l: int, r: int, is_and: bool) -> UdfOutcome {
    if rt != "boolean"@ {
        Err("Java boolean binary UDF must return boolean, got "@ + rt)
    } else {
        match binary_args(args, l, r) {
            Err(e) => Err(e),
            Ok((UdfVal::Boolean(a), UdfVal::Boolean(b))) => Ok(UdfVal::Boolean(if is_and { a && b } else { a || b })),
            Ok((a, b)) => if a is Null || b is Null {
                Ok(UdfVal::Null)
            } else {
                Err(pair_error("Expected boolean arguments, got "@, a, b))
            },
        }
    }
}

/// A binary operation over two argument positions.
pub open spec fn on_args(args: Seq<UdfVal>, l: int, r: int, f: spec_fn(UdfVal, UdfVal) -> UdfOutcome) -> UdfOutcome {
    match binary_args(args, l, r) {
        Ok((a, b)) => f(a, b),
        Err(e) => Err(e),
    }
}

/// An arithmetic operation over two operands.
pub open spec fn arith_operands(op: ArithOp, rt: Seq<char>, args: Seq<UdfVal>, l: Operand, r: Operand) -> UdfOutcome {
    match operand_value(rt, args, l) {
        Err(e) => Err(e),
        Ok(a) => match operand_value(rt, args, r) {
            Err(e) => Err(e),
            Ok(b) => arith_values(op, rt, a, b),
        },
    }
}

/// `substring` over argument positions: a missing value or begin gives null;
/// a missing end is treated as absent.
pub open spec fn substring_args(args: Seq<UdfVal>, v: int, b: int, e: Option<int>) -> UdfOutcome {
    match (arg_get(args, v), arg_get(args, b)) {
        (Some(value), Some(begin)) => substring_values(value, begin, match e {
            Some(i) => arg_get(args, i),
            None => None,
        }),
        _ => Ok(UdfVal::Null),
    }
}

/// `replace` over argument positions: a missing argument gives null.
pub open spec fn replace_args(args: Seq<UdfVal>, v: int, t: int, r: int) -> UdfOutcome {
    match (arg_get(args, v), arg_get(args, t), arg_get(args, r)) {
        (Some(a), Some(b), Some(c)) => replace_values(a, b, c),
        _ => Ok(UdfVal::Null),
    }
}

/// What a body computes from `args` for a function returning `rt`.
pub open spec fn run_body(body: Body, rt: Seq<char>, args: Seq<UdfVal>) -> UdfOutcome {
    match body {
        JavaCompatUdfBody::Identity(i) => Ok(arg_or_null(args, i as int)),
        JavaCompatUdfBody::Lower(i) => map_text_arg(arg_get(args, i as int), TextMap::Lower),
        JavaCompatUdfBody::Upper(i) => map_text_arg(arg_get(args, i as int), TextMap::Upper),
        JavaCompatUdfBody::Add(l, r) => on_args(args, l as int, r as int, |a: UdfVal, b: UdfVal| arith_values(ArithOp::Add, rt, a, b)),
        JavaCompatUdfBody::Subtract(l, r) => on_args(args, l as int, r as int, |a: UdfVal, b: UdfVal| arith_values(ArithOp::Subtract, rt, a, b)),
        JavaCompatUdfBody::Multiply(l, r) => on_args(args, l as int, r as int, |a: UdfVal, b: UdfVal| arith_values(ArithOp::Multiply, rt, a, b)),
        JavaCompatUdfBody::Divide(l, r) => on_args(args, l as int, r as int, |a: UdfVal, b: UdfVal| arith_values(ArithOp::Divide, rt, a, b)),
        JavaCompatUdfBody::Remainder(l, r) => on_args(args, l as int, r as int, |a: UdfVal, b: UdfVal| arith_values(ArithOp::Remainder, rt, a, b)),
        JavaCompatUdfBody::Compare(c, l, r) => on_args(args, l as int, r as int, |a: UdfVal, b: UdfVal| compare_values(rt, a, b, c)),
        JavaCompatUdfBody::Length(i) => text_length(arg_get(args, i as int)),
        JavaCompatUdfBody::Trim(i) => map_text_arg(arg_get(args, i as int), TextMap::Trim),
        JavaCompatUdfBody::IsEmpty(i) => text_is_empty(arg_get(args, i as int)),
        JavaCompatUdfBody::Contains(l, r) => on_args(args, l as int, r as int, |a: UdfVal, b: UdfVal| text_predicate_values(TextPredicate::Contains, a, b)),
        JavaCompatUdfBody::StartsWith(l, r) => on_args(args, l as int, r as int, |a: UdfVal, b: UdfVal| text_predicate_values(TextPredicate::StartsWith, a, b)),
        JavaCompatUdfBody::EndsWith(l, r) => on_args(args, l as int, r as int, |a: UdfVal, b: UdfVal| text_predicate_values(TextPredicate::EndsWith, a, b)),
        JavaCompatUdfBody::Substring(v, b) => substring_args(args, v as int, b as int, None),
        JavaCompatUdfBody::SubstringRange(v, b, e) => substring_args(args, v as int, b as int, Some(e as int)),
        JavaCompatUdfBody::IndexOf(v, n) => on_args(args, v as int, n as int, |a: UdfVal, b: UdfVal| index_of_values(a, b, false)),
        JavaCompatUdfBody::LastIndexOf(v, n) => on_args(args, v as int, n as int, |a: UdfVal, b: UdfVal| index_of_values(a, b, true)),
        JavaCompatUdfBody::Replace(v, t, r) => replace_args(args, v as int, t as int, r as int),
        JavaCompatUdfBody::ContainsOperands(l, r) => text_predicate_values(TextPredicate::Contains, runtime_operand(args, l), runtime_operand(args, r)),
        JavaCompatUdfBody::StartsWithOperands(l, r) => text_predicate_values(TextPredicate::StartsWith, runtime_operand(args, l), runtime_operand(args, r)),
        JavaCompatUdfBody::EndsWithOperands(l, r) => text_predicate_values(TextPredicate::EndsWith, runtime_operand(args, l), runtime_operand(args, r)),
        JavaCompatUdfBody::SubstringOperands(v, b) => substring_values(runtime_operand(args, v), runtime_operand(args, b), None),
        JavaCompatUdfBody::SubstringRangeOperands(v, b, e) => substring_values(runtime_operand(args, v), runtime_operand(args, b), Some(runtime_operand(args, e))),
        JavaCompatUdfBody::IndexOfOperands(v, n) => index_of_values(runtime_operand(args, v), runtime_operand(args, n), false),
        JavaCompatUdfBody::LastIndexOfOperands(v, n) => index_of_values(runtime_operand(args, v), runtime_operand(args, n), true),
        JavaCompatUdfBody::ReplaceOperands(v, t, r) => replace_values(runtime_operand(args, v), runtime_operand(args, t), runtime_operand(args, r)),
        JavaCompatUdfBody::Negate(i) => match arg_get(args, i as int) {
            Some(v) => negate_value(rt, v),
            None => Ok(UdfVal::Null),
        },
        JavaCompatUdfBody::Not(i) => not_value(rt, arg_get(args, i as int)),
        JavaCompatUdfBody::And(l, r) => boolean_binary(rt, args, l as int, r as int, true),
        JavaCompatUdfBody::Or(l, r) => boolean_binary(rt, args, l as int, r as int, false),
        JavaCompatUdfBody::AddOperands(l, r) => arith_operands(ArithOp::Add, rt, args, l, r),
        JavaCompatUdfBody::SubtractOperands(l, r) => arith_operands(ArithOp::Subtract, rt, args, l, r),
        JavaCompatUdfBody::MultiplyOperands(l, r) => arith_operands(ArithOp::Multiply, rt, args, l, r),
        JavaCompatUdfBody::DivideOperands(l, r) => arith_operands(ArithOp::Divide, rt, args, l, r),
        JavaCompatUdfBody::RemainderOperands(l, r) => arith_operands(ArithOp::Remainder, rt, args, l, r),
        JavaCompatUdfBody::CompareOperands(c, l, r) => compare_values(rt, runtime_operand(args, l), runtime_operand(args, r), c),
    }
}

/// What a function computes: null when it returns null on null input and an
/// argument is null, else what its body computes.
pub open spec fn run_function(body: Body, rt: Seq<char>, called_on_null_input: bool, args: Seq<UdfVal>) -> UdfOutcome {
    if !called_on_null_input && exists|i: int| 0 <= i < args.len() && #[trigger] args[i] == UdfVal::Null {
        Ok(UdfVal::Null)
    } else {
        run_body(body, rt, args)
    }
}

/// A function that returns null on null input gives null as soon as one
/// argument is null, whatever its body.
pub proof fn lemma_null_input_gives_null(body: Body, rt: Seq<char>, args: Seq<UdfVal>, i: int)
    requires
        0 <= i < args.len(),
        args[i] == UdfVal::Null,
    ensures
        run_function(body, rt, false, args) == Ok::<UdfVal, Seq<char>>(UdfVal::Null),
{
}

/// A function called on null input always runs its body.
pub proof fn lemma_called_on_null_runs_body(body: Body, rt: Seq<char>, args: Seq<UdfVal>)
    ensures
        run_function(body, rt, true, args) == run_body(body, rt, args),
{
}

/// Java's integer division and remainder fit together: the quotient times
/// the divisor plus the remainder gives back the dividend.
pub proof fn lemma_div_rem_reconstruct(a: int, b: int)
    requires
        b != 0,
    ensures
        trunc_div(a, b) * b + trunc_rem(a, b) == a,
        a >= 0 ==> trunc_rem(a, b) >= 0,
        a <= 0 ==> trunc_rem(a, b) <= 0,
{
    if a > 0 && b > 0 {
        assert((a / b) * b + a % b == a) by (nonlinear_arith) requires b > 0;
        assert(a % b >= 0) by (nonlinear_arith) requires b > 0;
    } else if a < 0 && b < 0 {
        let x = -a;
        let d = -b;
        assert((x / d) * d + x % d == x) by (nonlinear_arith) requires d > 0;
        assert(x % d >= 0) by (nonlinear_arith) requires d > 0;
        assert((x / d) * b + -(x % d) == a) by (nonlinear_arith)
            requires (x / d) * d + x % d == x, x == -a, d == -b;
    } else if a < 0 {
        let x = -a;
        assert((x / b) * b + x % b == x) by (nonlinear_arith) requires b > 0;
        assert(x % b >= 0) by (nonlinear_arith) requires b > 0;
        assert(-(x / b) * b + -(x % b) == a) by (nonlinear_arith)
            requires (x / b) * b + x % b == x, x == -a;
    } else if a > 0 {
        let d = -b;
        assert((a / d) * d + a % d == a) by (nonlinear_arith) requires d > 0;
        assert(a % d >= 0) by (nonlinear_arith) requires d > 0;
        assert(-(a / d) * b + a % d == a) by (nonlinear_arith)
            requires (a / d) * d + a % d == a, d == -b;
    }
}

/// Integer addition, subtraction and multiplication saturate: a result
/// outside the return type's range is clamped to its nearest bound.
pub proof fn lemma_saturating_bounds(op: ArithOp, k: IntKind, a: int, b: int)
    requires
        op is Add || op is Subtract || op is Multiply,
    ensures
        int_arith(op, k, a, b) matches Ok(v) && as_kind(k, v) matches Some(x)
            && kind_min(k) <= x <= kind_max(k),
{
    let exact = match op {
        ArithOp::Add => a + b,
        ArithOp::Subtract => a - b,
        _ => a * b,
    };
    let s = saturate(k, exact);
    assert(kind_min(k) <= s <= kind_max(k));
}

} // verus!

//! Execution of recognised Java function bodies.
use vstd::prelude::*;
use crate::chars::{
    trim, lower, upper, find, rfind, starts_with, ends_with, replace, opt_index, trim_chars,
    lower_chars, upper_chars, find_exec, rfind_exec, starts_with_exec, ends_with_exec,
    replace_exec, slice_chars,
};
use crate::java_body::{JavaCompatComparison, JavaCompatLiteral, JavaCompatOperand, JavaCompatUdfBody, Body, Lit, Operand};
use crate::java_semantics::{
    UdfOutcome, arg_get, arg_or_null, binary_args, pair_error, TextMap, text_map, map_text_arg,
    text_length, text_is_empty, TextPredicate, text_predicate, text_predicate_values, index_value,
    substring_chars, opt_debug, substring_values, index_of_values, replace_values, runtime_operand,
    IntKind, int_kind, kind_name, kind_min, kind_max, as_kind, of_kind, saturate, trunc_div,
    trunc_rem, ArithOp, op_word, int_arith, arith_values, literal_value, operand_value, two_pow,
    round_to_unit, round_mag_from, to_double, numeric_value, holds, compare_values, negate_value,
    not_value, boolean_binary, on_args, arith_operands, substring_args, replace_args, run_body,
    run_function,
};
use crate::text::{chars_of, string_from_chars, push_str, push_decimal_i128, str_eq, int_decimal, nat_decimal};
use crate::udf_value::{UdfValue, UdfVal, udf_debug, udf_views};

verus! {

broadcast use vstd::seq_lib::group_seq_properties;

/// The view of a run's result.
pub open spec fn outcome(r: Result<UdfValue, String>) -> UdfOutcome {
    match r {
        Ok(v) => Ok(v@),
        Err(e) => Err(e@),
    }
}

/// The view of an optional argument.
pub open spec fn opt_val(v: Option<&UdfValue>) -> Option<UdfVal> {
    match v {
        Some(x) => Some(x@),
        None => None,
    }
}

fn get_arg(args: &[UdfValue], i: usize) -> (r: Option<&UdfValue>)
    ensures
        opt_val(r) == arg_get(udf_views(args@), i as int),
{
    if i < args.len() {
        Some(&args[i])
    } else {
        None
    }
}

fn arg_or_null_exec(args: &[UdfValue], i: usize) -> (r: UdfValue)
    ensures
        r@ == arg_or_null(udf_views(args@), i as int),
{
    if i < args.len() {
        args[i].duplicate()
    } else {
        UdfValue::Null
    }
}

fn message_with(prefix: &str, v: &UdfValue) -> (r: String)
    ensures
        r@ == prefix@ + udf_debug(v@),
{
    let mut m = String::new();
    push_str(&mut m, prefix);
    let d = v.describe();
    push_str(&mut m, d.as_str());
    assert(m@ =~= prefix@ + udf_debug(v@));
    m
}

fn pair_error_exec(prefix: &str, l: &UdfValue, r: &UdfValue) -> (m: String)
    ensures
        m@ == pair_error(prefix@, l@, r@),
{
    let mut m = message_with(prefix, l);
    push_str(&mut m, " and ");
    let d = r.describe();
    push_str(&mut m, d.as_str());
    assert(m@ =~= pair_error(prefix@, l@, r@));
    m
}

fn text_value(s: &[char]) -> (r: UdfValue)
    ensures
        r@ == UdfVal::Text(s@),
{
    UdfValue::Text(string_from_chars(s))
}

fn text_map_exec(m: &TextMap, s: &String) -> (r: UdfValue)
    ensures
        r@ == UdfVal::Text(text_map(*m, s@)),
{
    let c = chars_of(s.as_str());
    let out = match m {
        TextMap::Lower => lower_chars(&c),
        TextMap::Upper => upper_chars(&c),
        TextMap::Trim => trim_chars(&c),
    };
    text_value(&out)
}

fn map_java_text_arg(v: Option<&UdfValue>, m: TextMap) -> (r: Result<UdfValue, String>)
    ensures
        outcome(r) == map_text_arg(opt_val(v), m),
{
    match v {
        Some(UdfValue::Text(s)) => Ok(text_map_exec(&m, s)),
        Some(UdfValue::Null) | None => Ok(UdfValue::Null),
        Some(other) => Err(message_with("Expected text argument, got ", other)),
    }
}

fn execute_java_text_length(v: Option<&UdfValue>) -> (r: Result<UdfValue, String>)
    ensures
        outcome(r) == text_length(opt_val(v)),
{
    match v {
        Some(UdfValue::Text(s)) => Ok(UdfValue::Int(s.as_str().unicode_len() as i32)),
        Some(UdfValue::Null) | None => Ok(UdfValue::Null),
        Some(other) => Err(message_with("Expected text argument, got ", other)),
    }
}

fn execute_java_text_predicate(v: Option<&UdfValue>) -> (r: Result<UdfValue, String>)
    ensures
        outcome(r) == text_is_empty(opt_val(v)),
{
    match v {
        Some(UdfValue::Text(s)) => Ok(UdfValue::Boolean(s.as_str().unicode_len() == 0)),
        Some(UdfValue::Null) | None => Ok(UdfValue::Null),
        Some(other) => Err(message_with("Expected text argument, got ", other)),
    }
}

fn execute_java_text_binary_predicate_values(p: TextPredicate, l: &UdfValue, r: &UdfValue) -> (res: Result<UdfValue, String>)
    ensures
        outcome(res) == text_predicate_values(p, l@, r@),
{
    match (l, r) {
        (UdfValue::Text(a), UdfValue::Text(b)) => {
            let ac = chars_of(a.as_str());
            let bc = chars_of(b.as_str());
            let holds = match p {
                TextPredicate::Contains => find_exec(&ac, &bc).is_some(),
                TextPredicate::StartsWith => starts_with_exec(&ac, &bc),
                TextPredicate::EndsWith => ends_with_exec(&ac, &bc),
            };
            Ok(UdfValue::Boolean(holds))
        },
        (UdfValue::Null, _) | (_, UdfValue::Null) => Ok(UdfValue::Null),
        _ => Err(pair_error_exec("Expected text arguments, got ", l, r)),
    }
}

fn java_index_value(v: &UdfValue) -> (r: Option<isize>)
    ensures
        (match r { Some(x) => Some(x as int), None => None }) == index_value(v@),
{
    match v {
        UdfValue::Tinyint(x) => Some(*x as isize),
        UdfValue::Smallint(x) => Some(*x as isize),
        UdfValue::Int(x) => Some(*x as isize),
        UdfValue::Long(x) => {
            if (isize::MIN as i64) <= *x && *x <= (isize::MAX as i64) {
                Some(*x as isize)
            } else {
                None
            }
        },
        _ => None,
    }
}

fn java_substring_chars(s: &String, begin: i128, end: i128) -> (r: Result<UdfValue, String>)
    ensures
        outcome(r) == substring_chars(s@, begin as int, end as int),
{
    let c = chars_of(s.as_str());
    let n = c.len();
    if begin < 0 || end < begin || end > (n as i128) {
        let mut m = String::new();
        push_str(&mut m, "Substring bounds out of range: begin=");
        push_decimal_i128(&mut m, begin);
        push_str(&mut m, ", end=");
        push_decimal_i128(&mut m, end);
        push_str(&mut m, ", length=");
        push_decimal_i128(&mut m, n as i128);
        assert(m@ =~= "Substring bounds out of range: begin="@ + int_decimal(begin as int) + ", end="@
            + int_decimal(end as int) + ", length="@ + nat_decimal(s@.len()));
        return Err(m);
    }
    let piece = slice_chars(&c, begin as usize, end as usize);
    Ok(text_value(&piece))
}

fn opt_debug_exec(v: Option<&UdfValue>) -> (r: String)
    ensures
        r@ == opt_debug(opt_val(v)),
{
    match v {
        Some(x) => {
            let mut m = String::new();
            push_str(&mut m, "Some(");
            let d = x.describe();
            push_str(&mut m, d.as_str());
            push_str(&mut m, ")");
            assert(m@ =~= opt_debug(opt_val(v)));
            m
        },
        None => {
            let mut m = String::new();
            push_str(&mut m, "None");
            assert(m@ =~= opt_debug(opt_val(v)));
            m
        },
    }
}

fn execute_java_substring_values(value: &UdfValue, begin: &UdfValue, end: Option<&UdfValue>) -> (r: Result<UdfValue, String>)
    ensures
        outcome(r) == substring_values(value@, begin@, opt_val(end)),
{
    let end_is_null = match end {
        Some(UdfValue::Null) => true,
        _ => false,
    };
    match value {
        UdfValue::Null => {
            return Ok(UdfValue::Null);
        },
        UdfValue::Text(s) => {
            if end_is_null {
                return Ok(UdfValue::Null);
            }
            if let UdfValue::Null = begin {
                return Ok(UdfValue::Null);
            }
            match java_index_value(begin) {
                None => Err(message_with("Expected int substring begin argument, got ", begin)),
                Some(b) => match end {
                    None => {
                        let n = s.as_str().unicode_len();
                        java_substring_chars(s, b as i128, n as i128)
                    },
                    Some(e) => match java_index_value(e) {
                        None => Err(message_with("Expected int substring end argument, got ", e)),
                        Some(x) => java_substring_chars(s, b as i128, x as i128),
                    },
                },
            }
        },
        _ => {
            let mut m = message_with("Expected text and int substring arguments, got ", value);
            push_str(&mut m, ", ");
            let d = begin.describe();
            push_str(&mut m, d.as_str());
            push_str(&mut m, ", ");
            let e = opt_debug_exec(end);
            push_str(&mut m, e.as_str());
            assert(m@ =~= "Expected text and int substring arguments, got "@ + udf_debug(value@) + ", "@
                + udf_debug(begin@) + ", "@ + opt_debug(opt_val(end)));
            Err(m)
        },
    }
}

fn execute_java_text_index_values(value: &UdfValue, needle: &UdfValue, last: bool) -> (r: Result<UdfValue, String>)
    ensures
        outcome(r) == index_of_values(value@, needle@, last),
{
    match (value, needle) {
        (UdfValue::Text(a), UdfValue::Text(b)) => {
            let ac = chars_of(a.as_str());
            let bc = chars_of(b.as_str());
            let found = if last { rfind_exec(&ac, &bc) } else { find_exec(&ac, &bc) };
            Ok(UdfValue::Int(match found {
                Some(i) => i as i32,
                None => -1i32,
            }))
        },
        (UdfValue::Null, _) | (_, UdfValue::Null) => Ok(UdfValue::Null),
        _ => Err(pair_error_exec("Expected text index arguments, got ", value, needle)),
    }
}

fn execute_java_text_replace_values(value: &UdfValue, target: &UdfValue, replacement: &UdfValue) -> (r: Result<UdfValue, String>)
    ensures
        outcome(r) == replace_values(value@, target@, replacement@),
{
    match (value, target, replacement) {
        (UdfValue::Text(a), UdfValue::Text(b), UdfValue::Text(c)) => {
            let ac = chars_of(a.as_str());
            let bc = chars_of(b.as_str());
            let cc = chars_of(c.as_str());
            let out = replace_exec(&ac, &bc, &cc);
            Ok(text_value(&out))
        },
        (UdfValue::Null, _, _) | (_, UdfValue::Null, _) | (_, _, UdfValue::Null) => Ok(UdfValue::Null),
        _ => {
            let mut m = message_with("Expected text replace arguments, got ", value);
            push_str(&mut m, ", ");
            let d = target.describe();
            push_str(&mut m, d.as_str());
            push_str(&mut m, ", ");
            let e = replacement.describe();
            push_str(&mut m, e.as_str());
            assert(m@ =~= "Expected text replace arguments, got "@ + udf_debug(value@) + ", "@
                + udf_debug(target@) + ", "@ + udf_debug(replacement@));
            Err(m)
        },
    }
}

fn java_runtime_operand_value(args: &[UdfValue], op: &JavaCompatOperand<String>) -> (r: UdfValue)
    ensures
        r@ == runtime_operand(udf_views(args@), op@),
{
    match op {
        JavaCompatOperand::Arg(i) => arg_or_null_exec(args, *i),
        JavaCompatOperand::Literal(JavaCompatLiteral::Int(v)) => UdfValue::Long(*v),
        JavaCompatOperand::Literal(JavaCompatLiteral::Text(s)) => UdfValue::Text(s.clone()),
        JavaCompatOperand::Literal(JavaCompatLiteral::Boolean(b)) => UdfValue::Boolean(*b),
    }
}

fn int_kind_exec(rt: &str) -> (r: Option<IntKind>)
    ensures
        r == int_kind(rt@),
{
    if str_eq(rt, "tinyint") {
        Some(IntKind::Tinyint)
    } else if str_eq(rt, "smallint") {
        Some(IntKind::Smallint)
    } else if str_eq(rt, "int") {
        Some(IntKind::Int)
    } else if str_eq(rt, "bigint") {
        Some(IntKind::Bigint)
    } else if str_eq(rt, "counter") {
        Some(IntKind::Counter)
    } else {
        None
    }
}

fn kind_name_exec(k: &IntKind) -> (r: &'static str)
    ensures
        r@ == kind_name(*k),
{
    match k {
        IntKind::Tinyint => "tinyint",
        IntKind::Smallint => "smallint",
        IntKind::Int => "int",
        IntKind::Bigint => "bigint",
        IntKind::Counter => "counter",
    }
}

fn kind_min_exec(k: &IntKind) -> (r: i128)
    ensures
        r == kind_min(*k),
{
    match k {
        IntKind::Tinyint => -128,
        IntKind::Smallint => -32768,
        IntKind::Int => -2147483648,
        _ => -9223372036854775808,
    }
}

fn kind_max_exec(k: &IntKind) -> (r: i128)
    ensures
        r == kind_max(*k),
{
    match k {
        IntKind::Tinyint => 127,
        IntKind::Smallint => 32767,
        IntKind::Int => 2147483647,
        _ => 9223372036854775807,
    }
}

fn as_kind_exec(k: &IntKind, v: &UdfValue) -> (r: Option<i128>)
    ensures
        (match r { Some(x) => Some(x as int), None => None }) == as_kind(*k, v@),
{
    match (k, v) {
        (IntKind::Tinyint, UdfValue::Tinyint(x)) => Some(*x as i128),
        (IntKind::Smallint, UdfValue::Smallint(x)) => Some(*x as i128),
        (IntKind::Int, UdfValue::Int(x)) => Some(*x as i128),
        (IntKind::Bigint, UdfValue::Long(x)) => Some(*x as i128),
        (IntKind::Counter, UdfValue::Counter(x)) => Some(*x as i128),
        _ => None,
    }
}

fn of_kind_exec(k: &IntKind, x: i128) -> (r: UdfValue)
    requires
        kind_min(*k) <= x <= kind_max(*k),
    ensures
        r@ == of_kind(*k, x as int),
{
    match k {
        IntKind::Tinyint => UdfValue::Tinyint(x as i8),
        IntKind::Smallint => UdfValue::Smallint(x as i16),
        IntKind::Int => UdfValue::Int(x as i32),
        IntKind::Bigint => UdfValue::Long(x as i64),
        IntKind::Counter => UdfValue::Counter(x as i64),
    }
}

fn saturate_exec(k: &IntKind, x: i128) -> (r: i128)
    ensures
        r == saturate(*k, x as int),
        kind_min(*k) <= r <= kind_max(*k),
{
    let lo = kind_min_exec(k);
    let hi = kind_max_exec(k);
    if x < lo { lo } else if x > hi { hi } else { x }
}

proof fn lemma_trunc_div_in_range(k: IntKind, a: int, b: int)
    requires
        kind_min(k) <= a <= kind_max(k),
        kind_min(k) <= b <= kind_max(k),
        b != 0,
        !(a == kind_min(k) && b == -1),
    ensures
        kind_min(k) <= trunc_div(a, b) <= kind_max(k),
{
    let lo = kind_min(k);
    let hi = kind_max(k);
    assert(hi == -lo - 1);
    if a > 0 && b > 0 {
        assert(a / b <= a) by (nonlinear_arith) requires a > 0, b > 0;
        assert(a / b >= 0) by (nonlinear_arith) requires a > 0, b > 0;
    } else if a < 0 && b < 0 {
        let x = -a;
        let d = -b;
        if d == 1 {
            assert(x / d == x);
            assert(x <= hi);
        } else {
            assert(x / d <= x / 2) by (nonlinear_arith) requires x > 0, d >= 2;
            assert(x / 2 <= x) by (nonlinear_arith) requires x > 0;
            assert(x / d >= 0) by (nonlinear_arith) requires x > 0, d >= 2;
        }
    } else if a < 0 && b > 0 {
        let x = -a;
        assert(x / b <= x) by (nonlinear_arith) requires x > 0, b > 0;
        assert(x / b >= 0) by (nonlinear_arith) requires x > 0, b > 0;
    } else if a > 0 && b < 0 {
        let d = -b;
        assert(a / d <= a) by (nonlinear_arith) requires a > 0, d > 0;
        assert(a / d >= 0) by (nonlinear_arith) requires a > 0, d > 0;
    }
}

proof fn lemma_trunc_rem_in_range(k: IntKind, a: int, b: int)
    requires
        kind_min(k) <= a <= kind_max(k),
        b != 0,
    ensures
        kind_min(k) <= trunc_rem(a, b) <= kind_max(k),
{
    let lo = kind_min(k);
    let hi = kind_max(k);
    if a > 0 && b > 0 {
        assert(a % b <= a && a % b >= 0) by (nonlinear_arith) requires a > 0, b > 0;
    } else if a < 0 && b < 0 {
        let x = -a;
        let d = -b;
        assert(x % d <= x && x % d >= 0) by (nonlinear_arith) requires x > 0, d > 0;
    } else if a < 0 && b > 0 {
        let x = -a;
        assert(x % b <= x && x % b >= 0) by (nonlinear_arith) requires x > 0, b > 0;
    } else if a > 0 && b < 0 {
        let d = -b;
        assert(a % d <= a && a % d >= 0) by (nonlinear_arith) requires a > 0, d > 0;
    }
}

pub(crate) fn trunc_div_exec(a: i128, b: i128) -> (r: i128)
    requires
        b != 0,
        -0x8000_0000_0000_0000 <= a <= 0x7fff_ffff_ffff_ffff,
        -0x8000_0000_0000_0000 <= b <= 0x7fff_ffff_ffff_ffff,
    ensures
        r == trunc_div(a as int, b as int),
{
    let x = if a < 0 { -a } else { a };
    let d = if b < 0 { -b } else { b };
    let q = x / d;
    proof {
        assert(q <= x) by (nonlinear_arith) requires x >= 0, d > 0, q == x / d;
    }
    if (a < 0) == (b < 0) { q } else { -q }
}

fn trunc_rem_exec(a: i128, b: i128) -> (r: i128)
    requires
        b != 0,
        -0x8000_0000_0000_0000 <= a <= 0x7fff_ffff_ffff_ffff,
        -0x8000_0000_0000_0000 <= b <= 0x7fff_ffff_ffff_ffff,
    ensures
        r == trunc_rem(a as int, b as int),
{
    let x = if a < 0 { -a } else { a };
    let d = if b < 0 { -b } else { b };
    if a == 0 {
        return 0;
    }
    let m = x % d;
    if a < 0 { -m } else { m }
}

fn int_arith_exec(op: &ArithOp, k: &IntKind, a: i128, b: i128) -> (r: Result<UdfValue, String>)
    requires
        kind_min(*k) <= a <= kind_max(*k),
        kind_min(*k) <= b <= kind_max(*k),
    ensures
        outcome(r) == int_arith(*op, *k, a as int, b as int),
{
    assert(kind_min(*k) >= -0x8000_0000_0000_0000 && kind_max(*k) <= 0x7fff_ffff_ffff_ffff);
    match op {
        ArithOp::Add => Ok(of_kind_exec(k, saturate_exec(k, a + b))),
        ArithOp::Subtract => Ok(of_kind_exec(k, saturate_exec(k, a - b))),
        ArithOp::Multiply => {
            assert(-0x4000_0000_0000_0000_0000_0000_0000_0000 <= a * b <= 0x4000_0000_0000_0000_0000_0000_0000_0000)
                by (nonlinear_arith)
                requires
                    -0x8000_0000_0000_0000 <= a <= 0x7fff_ffff_ffff_ffff,
                    -0x8000_0000_0000_0000 <= b <= 0x7fff_ffff_ffff_ffff,
            ;
            Ok(of_kind_exec(k, saturate_exec(k, a * b)))
        },
        ArithOp::Divide => {
            if b == 0 {
                let mut m = String::new();
                push_str(&mut m, "Division by zero");
                Err(m)
            } else if a == kind_min_exec(k) && b == -1 {
                Ok(of_kind_exec(k, a))
            } else {
                proof {
                    lemma_trunc_div_in_range(*k, a as int, b as int);
                }
                Ok(of_kind_exec(k, trunc_div_exec(a, b)))
            }
        },
        ArithOp::Remainder => {
            if b == 0 {
                let mut m = String::new();
                push_str(&mut m, "Division by zero");
                Err(m)
            } else if a == kind_min_exec(k) && b == -1 {
                Ok(of_kind_exec(k, 0))
            } else {
                proof {
                    lemma_trunc_rem_in_range(*k, a as int, b as int);
                }
                Ok(of_kind_exec(k, trunc_rem_exec(a, b)))
            }
        },
    }
}

fn op_word_exec(op: &ArithOp) -> (r: &'static str)
    ensures
        r@ == op_word(*op),
{
    match op {
        ArithOp::Add => "addition",
        ArithOp::Subtract => "subtraction",
        ArithOp::Multiply => "multiplication",
        ArithOp::Divide => "division",
        ArithOp::Remainder => "remainder",
    }
}

fn execute_java_arith_values(op: ArithOp, rt: &str, l: &UdfValue, r: &UdfValue) -> (res: Result<UdfValue, String>)
    ensures
        outcome(res) == arith_values(op, rt@, l@, r@),
{
    let l_null = match l { UdfValue::Null => true, _ => false };
    let r_null = match r { UdfValue::Null => true, _ => false };
    match int_kind_exec(rt) {
        Some(k) => match (as_kind_exec(&k, l), as_kind_exec(&k, r)) {
            (Some(a), Some(b)) => int_arith_exec(&op, &k, a, b),
            _ => if l_null || r_null {
                Ok(UdfValue::Null)
            } else {
                let mut prefix = String::new();
                push_str(&mut prefix, "Expected ");
                push_str(&mut prefix, kind_name_exec(&k));
                push_str(&mut prefix, " arguments, got ");
                Err(pair_error_exec(prefix.as_str(), l, r))
            },
        },
        None => {
            let is_add = match op { ArithOp::Add => true, _ => false };
            if str_eq(rt, "float") || str_eq(rt, "double") {
                if l_null || r_null {
                    Ok(UdfValue::Null)
                } else {
                    let mut prefix = String::new();
                    push_str(&mut prefix, "Expected ");
                    push_str(&mut prefix, rt);
                    push_str(&mut prefix, " arguments, got ");
                    Err(pair_error_exec(prefix.as_str(), l, r))
                }
            } else if is_add && str_eq(rt, "blob") {
                match (l, r) {
                    (UdfValue::Blob(a), UdfValue::Blob(b)) => {
                        let mut out = a.clone();
                        let mut i: usize = 0;
                        let ghost start = out@;
                        while i < b.len()
                            invariant
                                i <= b@.len(),
                                out@ == start + b@.subrange(0, i as int),
                            decreases b.len() - i,
                        {
                            out.push(b[i]);
                            i = i + 1;
                            assert(out@ =~= start + b@.subrange(0, i as int));
                        }
                        assert(b@.subrange(0, b@.len() as int) =~= b@);
                        Ok(UdfValue::Blob(out))
                    },
                    (UdfValue::Null, _) | (_, UdfValue::Null) => Ok(UdfValue::Null),
                    _ => Err(pair_error_exec("Expected blob arguments, got ", l, r)),
                }
            } else if is_add {
                match (l, r) {
                    (UdfValue::Text(a), UdfValue::Text(b)) => {
                        let mut out = String::new();
                        push_str(&mut out, a.as_str());
                        push_str(&mut out, b.as_str());
                        Ok(UdfValue::Text(out))
                    },
                    (UdfValue::Null, _) | (_, UdfValue::Null) => Ok(UdfValue::Null),
                    _ => Err(pair_error_exec("Expected text arguments, got ", l, r)),
                }
            } else {
                let mut m = String::new();
                push_str(&mut m, "Java ");
                push_str(&mut m, op_word_exec(&op));
                push_str(&mut m, " UDF is not supported for return type ");
                push_str(&mut m, rt);
                Err(m)
            }
        },
    }
}

fn java_literal_value(rt: &str, lit: &JavaCompatLiteral<String>) -> (r: Result<UdfValue, String>)
    ensures
        outcome(r) == literal_value(rt@, lit@),
{
    match lit {
        JavaCompatLiteral::Int(v) => match int_kind_exec(rt) {
            Some(k) => {
                let x = *v as i128;
                if kind_min_exec(&k) <= x && x <= kind_max_exec(&k) {
                    Ok(of_kind_exec(&k, x))
                } else {
                    let mut m = String::new();
                    push_str(&mut m, "Integer literal ");
                    push_decimal_i128(&mut m, x);
                    push_str(&mut m, " is out of range for ");
                    push_str(&mut m, kind_name_exec(&k));
                    assert(m@ =~= "Integer literal "@ + int_decimal(*v as int) + " is out of range for "@ + kind_name(k));
                    Err(m)
                }
            },
            None => {
                if str_eq(rt, "float") || str_eq(rt, "double") {
                    let mut m = String::new();
                    push_str(&mut m, "Java ");
                    push_str(&mut m, rt);
                    push_str(&mut m, " literals are not supported");
                    Err(m)
                } else {
                    let mut m = String::new();
                    push_decimal_i128(&mut m, *v as i128);
                    assert(m@ =~= int_decimal(*v as int));
                    Ok(UdfValue::Text(m))
                }
            },
        },
        JavaCompatLiteral::Text(s) => Ok(UdfValue::Text(s.clone())),
        JavaCompatLiteral::Boolean(b) => Ok(UdfValue::Boolean(*b)),
    }
}

fn java_operand_value(rt: &str, args: &[UdfValue], op: &JavaCompatOperand<String>) -> (r: Result<UdfValue, String>)
    ensures
        outcome(r) == operand_value(rt@, udf_views(args@), op@),
{
    match op {
        JavaCompatOperand::Arg(i) => Ok(arg_or_null_exec(args, *i)),
        JavaCompatOperand::Literal(l) => java_literal_value(rt, l),
    }
}

/// The nearest double to `x` (ties to even), as an integer.
pub fn to_double_exec(x: i128) -> (r: i128)
    requires
        -0x8000_0000_0000_0000 <= x <= 0x7fff_ffff_ffff_ffff,
    ensures
        r == to_double(x as int),
{
    let m: u128 = if x < 0 { (-x) as u128 } else { x as u128 };
    if m < 9007199254740992u128 {
        return x;
    }
    let mut e: u64 = 1;
    let mut unit: u128 = 2;
    assert(two_pow(1) == 2) by {
        assert(two_pow(0) == 1);
    }
    while m >= 9007199254740992u128 * unit
        invariant
            1 <= e <= 11,
            unit == two_pow(e as nat),
            m <= 0x8000_0000_0000_0000,
            m >= 9007199254740992u128 * (unit / 2),
            unit == 2 * (unit / 2),
            unit <= 2048,
            round_mag_from(m as nat, 1) == round_mag_from(m as nat, e as nat),
        decreases 11 - e,
    {
        assert(unit <= 1024) by {
            if unit == 2048 {
                assert(9007199254740992u128 * 2048 == 0x10_0000_0000_0000_0000u128);
            }
            assert(unit == 2 * (unit / 2));
        }
        assert(e < 11) by {
            if e >= 11 {
                assert(unit == two_pow(e as nat));
                lemma_two_pow_ge(e as nat);
            }
        }
        e = e + 1;
        unit = unit * 2;
        assert(unit == two_pow(e as nat));
    }
    let q = m / unit;
    let rem = m % unit;
    proof {
        assert(round_mag_from(m as nat, e as nat) == round_to_unit(m as nat, two_pow(e as nat)));
        assert(q * unit <= m) by (nonlinear_arith) requires q == m / unit, unit > 0;
        assert((q + 1) * unit <= m + unit) by (nonlinear_arith) requires q == m / unit, unit > 0;
        assert(rem < unit);
    }
    let rounded: u128 = if 2 * rem > unit || (2 * rem == unit && q % 2 == 1) { (q + 1) * unit } else { q * unit };
    if x < 0 { -(rounded as i128) } else { rounded as i128 }
}

proof fn lemma_two_pow_ge(e: nat)
    requires
        e >= 11,
    ensures
        two_pow(e) >= 2048,
    decreases e,
{
    if e > 11 {
        lemma_two_pow_ge((e - 1) as nat);
    } else {
        assert(two_pow(11) == 2048) by {
            assert(two_pow(0) == 1);
            assert(two_pow(1) == 2);
            assert(two_pow(2) == 4);
            assert(two_pow(3) == 8);
            assert(two_pow(4) == 16);
            assert(two_pow(5) == 32);
            assert(two_pow(6) == 64);
            assert(two_pow(7) == 128);
            assert(two_pow(8) == 256);
            assert(two_pow(9) == 512);
            assert(two_pow(10) == 1024);
        }
    }
}

fn java_numeric_arg(v: &UdfValue) -> (r: Option<i128>)
    ensures
        (match r { Some(x) => Some(x as int), None => None }) == numeric_value(v@),
{
    match v {
        UdfValue::Tinyint(x) => Some(to_double_exec(*x as i128)),
        UdfValue::Smallint(x) => Some(to_double_exec(*x as i128)),
        UdfValue::Int(x) => Some(to_double_exec(*x as i128)),
        UdfValue::Long(x) => Some(to_double_exec(*x as i128)),
        UdfValue::Counter(x) => Some(to_double_exec(*x as i128)),
        _ => None,
    }
}

fn holds_exec(op: JavaCompatComparison, a: i128, b: i128) -> (r: bool)
    ensures
        r == holds(op, a as int, b as int),
{
    match op {
        JavaCompatComparison::Eq => a == b,
        JavaCompatComparison::Ne => a != b,
        JavaCompatComparison::Gt => a > b,
        JavaCompatComparison::Gte => a >= b,
        JavaCompatComparison::Lt => a < b,
        JavaCompatComparison::Lte => a <= b,
    }
}

fn execute_java_compare_values(rt: &str, l: &UdfValue, r: &UdfValue, op: JavaCompatComparison) -> (res: Result<UdfValue, String>)
    ensures
        outcome(res) == compare_values(rt@, l@, r@, op),
{
    if !str_eq(rt, "boolean") {
        let mut m = String::new();
        push_str(&mut m, "Java comparison UDF must return boolean, got ");
        push_str(&mut m, rt);
        return Err(m);
    }
    match (l, r) {
        (UdfValue::Null, _) | (_, UdfValue::Null) => Ok(UdfValue::Null),
        (UdfValue::Boolean(a), UdfValue::Boolean(b)) => match op {
            JavaCompatComparison::Eq => Ok(UdfValue::Boolean(*a == *b)),
            JavaCompatComparison::Ne => Ok(UdfValue::Boolean(*a != *b)),
            _ => {
                let mut m = String::new();
                push_str(&mut m, "Java boolean comparison only supports == and !=");
                Err(m)
            },
        },
        (UdfValue::Text(a), UdfValue::Text(b)) => match op {
            JavaCompatComparison::Eq => Ok(UdfValue::Boolean(str_eq(a.as_str(), b.as_str()))),
            JavaCompatComparison::Ne => Ok(UdfValue::Boolean(!str_eq(a.as_str(), b.as_str()))),
            _ => {
                let mut m = String::new();
                push_str(&mut m, "Java text comparison only supports == and !=");
                Err(m)
            },
        },
        _ => match java_numeric_arg(l) {
            None => Err(message_with("Expected numeric comparison argument, got ", l)),
            Some(a) => match java_numeric_arg(r) {
                None => Err(message_with("Expected numeric comparison argument, got ", r)),
                Some(b) => Ok(UdfValue::Boolean(holds_exec(op, a, b))),
            },
        },
    }
}

fn java_negate_value(rt: &str, v: &UdfValue) -> (r: Result<UdfValue, String>)
    ensures
        outcome(r) == negate_value(rt@, v@),
{
    if let UdfValue::Null = v {
        return Ok(UdfValue::Null);
    }
    match int_kind_exec(rt) {
        Some(k) => match as_kind_exec(&k, v) {
            Some(x) => return Ok(of_kind_exec(&k, saturate_exec(&k, -x))),
            None => {},
        },
        None => {},
    }
    let mut m = String::new();
    push_str(&mut m, "Java unary negation UDF is not supported for return type ");
    push_str(&mut m, rt);
    push_str(&mut m, " and argument ");
    let d = v.describe();
    push_str(&mut m, d.as_str());
    Err(m)
}

fn execute_java_not(rt: &str, v: Option<&UdfValue>) -> (r: Result<UdfValue, String>)
    ensures
        outcome(r) == not_value(rt@, opt_val(v)),
{
    if !str_eq(rt, "boolean") {
        let mut m = String::new();
        push_str(&mut m, "Java boolean NOT UDF must return boolean, got ");
        push_str(&mut m, rt);
        return Err(m);
    }
    match v {
        Some(UdfValue::Boolean(b)) => Ok(UdfValue::Boolean(!*b)),
        Some(UdfValue::Null) | None => Ok(UdfValue::Null),
        Some(other) => Err(message_with("Expected boolean argument, got ", other)),
    }
}

fn java_binary_args(args: &[UdfValue], l: usize, r: usize) -> (res: Result<(&UdfValue, &UdfValue), String>)
    ensures
        (match res { Ok(p) => Ok((p.0@, p.1@)), Err(e) => Err(e@) }) == binary_args(udf_views(args@), l as int, r as int),
{
    if l >= args.len() {
        let mut m = String::new();
        push_str(&mut m, "Missing left Java UDF argument");
        return Err(m);
    }
    if r >= args.len() {
        let mut m = String::new();
        push_str(&mut m, "Missing right Java UDF argument");
        return Err(m);
    }
    Ok((&args[l], &args[r]))
}

fn execute_java_boolean_binary(rt: &str, args: &[UdfValue], l: usize, r: usize, is_and: bool) -> (res: Result<UdfValue, String>)
    ensures
        outcome(res) == boolean_binary(rt@, udf_views(args@), l as int, r as int, is_and),
{
    if !str_eq(rt, "boolean") {
        let mut m = String::new();
        push_str(&mut m, "Java boolean binary UDF must return boolean, got ");
        push_str(&mut m, rt);
        return Err(m);
    }
    match java_binary_args(args, l, r) {
        Err(e) => Err(e),
        Ok((a, b)) => match (a, b) {
            (UdfValue::Boolean(x), UdfValue::Boolean(y)) => Ok(UdfValue::Boolean(if is_and { *x && *y } else { *x || *y })),
            (UdfValue::Null, _) | (_, UdfValue::Null) => Ok(UdfValue::Null),
            _ => Err(pair_error_exec("Expected boolean arguments, got ", a, b)),
        },
    }
}

fn execute_java_arith_operands(op: ArithOp, rt: &str, args: &[UdfValue], l: &JavaCompatOperand<String>, r: &JavaCompatOperand<String>) -> (res: Result<UdfValue, String>)
    ensures
        outcome(res) == arith_operands(op, rt@, udf_views(args@), l@, r@),
{
    match java_operand_value(rt, args, l) {
        Err(e) => Err(e),
        Ok(a) => match java_operand_value(rt, args, r) {
            Err(e) => Err(e),
            Ok(b) => execute_java_arith_values(op, rt, &a, &b),
        },
    }
}


fn execute_java_arith(op: ArithOp, rt: &str, args: &[UdfValue], l: usize, r: usize) -> (res: Result<UdfValue, String>)
    ensures
        outcome(res) == (match binary_args(udf_views(args@), l as int, r as int) {
            Ok(p) => arith_values(op, rt@, p.0, p.1),
            Err(e) => Err(e),
        }),
{
    match java_binary_args(args, l, r) {
        Err(e) => Err(e),
        Ok((a, b)) => execute_java_arith_values(op, rt, a, b),
    }
}

fn execute_java_compare(rt: &str, args: &[UdfValue], l: usize, r: usize, c: JavaCompatComparison) -> (res: Result<UdfValue, String>)
    ensures
        outcome(res) == (match binary_args(udf_views(args@), l as int, r as int) {
            Ok(p) => compare_values(rt@, p.0, p.1, c),
            Err(e) => Err(e),
        }),
{
    match java_binary_args(args, l, r) {
        Err(e) => Err(e),
        Ok((a, b)) => execute_java_compare_values(rt, a, b, c),
    }
}

fn execute_java_text_binary_predicate(p: TextPredicate, args: &[UdfValue], l: usize, r: usize) -> (res: Result<UdfValue, String>)
    ensures
        outcome(res) == (match binary_args(udf_views(args@), l as int, r as int) {
            Ok(x) => text_predicate_values(p, x.0, x.1),
            Err(e) => Err(e),
        }),
{
    match java_binary_args(args, l, r) {
        Err(e) => Err(e),
        Ok((a, b)) => execute_java_text_binary_predicate_values(p, a, b),
    }
}

fn execute_java_text_index(args: &[UdfValue], l: usize, r: usize, last: bool) -> (res: Result<UdfValue, String>)
    ensures
        outcome(res) == (match binary_args(udf_views(args@), l as int, r as int) {
            Ok(x) => index_of_values(x.0, x.1, last),
            Err(e) => Err(e),
        }),
{
    match java_binary_args(args, l, r) {
        Err(e) => Err(e),
        Ok((a, b)) => execute_java_text_index_values(a, b, last),
    }
}

fn execute_java_substring(args: &[UdfValue], v: usize, b: usize, e: Option<usize>) -> (res: Result<UdfValue, String>)
    ensures
        outcome(res) == substring_args(udf_views(args@), v as int, b as int, match e { Some(i) => Some(i as int), None => None }),
{
    match (get_arg(args, v), get_arg(args, b)) {
        (Some(value), Some(begin)) => {
            let end = match e {
                Some(i) => get_arg(args, i),
                None => None,
            };
            execute_java_substring_values(value, begin, end)
        },
        _ => Ok(UdfValue::Null),
    }
}

fn execute_java_text_replace(args: &[UdfValue], v: usize, t: usize, r: usize) -> (res: Result<UdfValue, String>)
    ensures
        outcome(res) == replace_args(udf_views(args@), v as int, t as int, r as int),
{
    match (get_arg(args, v), get_arg(args, t), get_arg(args, r)) {
        (Some(a), Some(b), Some(c)) => execute_java_text_replace_values(a, b, c),
        _ => Ok(UdfValue::Null),
    }
}

fn execute_java_negate(rt: &str, args: &[UdfValue], i: usize) -> (res: Result<UdfValue, String>)
    ensures
        outcome(res) == (match arg_get(udf_views(args@), i as int) {
            Some(v) => negate_value(rt@, v),
            None => Ok(UdfVal::Null),
        }),
{
    match get_arg(args, i) {
        Some(v) => java_negate_value(rt, v),
        None => Ok(UdfValue::Null),
    }
}

/// Runs a recognised body on `args` for a function returning `rt`.
#[verifier::rlimit(40)]
pub fn run_body_exec(body: &JavaCompatUdfBody<String>, rt: &str, args: &[UdfValue]) -> (res: Result<UdfValue, String>)
    ensures
        outcome(res) == run_body(body@, rt@, udf_views(args@)),
{
    let ghost vargs = udf_views(args@);
    match body {
        JavaCompatUdfBody::Identity(i) => Ok(arg_or_null_exec(args, *i)),
        JavaCompatUdfBody::Lower(i) => map_java_text_arg(get_arg(args, *i), TextMap::Lower),
        JavaCompatUdfBody::Upper(i) => map_java_text_arg(get_arg(args, *i), TextMap::Upper),
        JavaCompatUdfBody::Add(l, r) => execute_java_arith(ArithOp::Add, rt, args, *l, *r),
        JavaCompatUdfBody::Subtract(l, r) => execute_java_arith(ArithOp::Subtract, rt, args, *l, *r),
        JavaCompatUdfBody::Multiply(l, r) => execute_java_arith(ArithOp::Multiply, rt, args, *l, *r),
        JavaCompatUdfBody::Divide(l, r) => execute_java_arith(ArithOp::Divide, rt, args, *l, *r),
        JavaCompatUdfBody::Remainder(l, r) => execute_java_arith(ArithOp::Remainder, rt, args, *l, *r),
        JavaCompatUdfBody::Compare(c, l, r) => execute_java_compare(rt, args, *l, *r, *c),
        JavaCompatUdfBody::Length(i) => execute_java_text_length(get_arg(args, *i)),
        JavaCompatUdfBody::Trim(i) => map_java_text_arg(get_arg(args, *i), TextMap::Trim),
        JavaCompatUdfBody::IsEmpty(i) => execute_java_text_predicate(get_arg(args, *i)),
        JavaCompatUdfBody::Contains(l, r) => execute_java_text_binary_predicate(TextPredicate::Contains, args, *l, *r),
        JavaCompatUdfBody::StartsWith(l, r) => execute_java_text_binary_predicate(TextPredicate::StartsWith, args, *l, *r),
        JavaCompatUdfBody::EndsWith(l, r) => execute_java_text_binary_predicate(TextPredicate::EndsWith, args, *l, *r),
        JavaCompatUdfBody::Substring(v, b) => execute_java_substring(args, *v, *b, None),
        JavaCompatUdfBody::SubstringRange(v, b, e) => execute_java_substring(args, *v, *b, Some(*e)),
        JavaCompatUdfBody::IndexOf(v, n) => execute_java_text_index(args, *v, *n, false),
        JavaCompatUdfBody::LastIndexOf(v, n) => execute_java_text_index(args, *v, *n, true),
        JavaCompatUdfBody::Replace(v, t, r) => execute_java_text_replace(args, *v, *t, *r),
        JavaCompatUdfBody::ContainsOperands(l, r) => {
            let a = java_runtime_operand_value(args, l);
            let b = java_runtime_operand_value(args, r);
            execute_java_text_binary_predicate_values(TextPredicate::Contains, &a, &b)
        },
        JavaCompatUdfBody::StartsWithOperands(l, r) => {
            let a = java_runtime_operand_value(args, l);
            let b = java_runtime_operand_value(args, r);
            execute_java_text_binary_predicate_values(TextPredicate::StartsWith, &a, &b)
        },
        JavaCompatUdfBody::EndsWithOperands(l, r) => {
            let a = java_runtime_operand_value(args, l);
            let b = java_runtime_operand_value(args, r);
            execute_java_text_binary_predicate_values(TextPredicate::EndsWith, &a, &b)
        },
        JavaCompatUdfBody::SubstringOperands(v, b) => {
            let x = java_runtime_operand_value(args, v);
            let y = java_runtime_operand_value(args, b);
            execute_java_substring_values(&x, &y, None)
        },
        JavaCompatUdfBody::SubstringRangeOperands(v, b, e) => {
            let x = java_runtime_operand_value(args, v);
            let y = java_runtime_operand_value(args, b);
            let z = java_runtime_operand_value(args, e);
            execute_java_substring_values(&x, &y, Some(&z))
        },
        JavaCompatUdfBody::IndexOfOperands(v, n) => {
            let x = java_runtime_operand_value(args, v);
            let y = java_runtime_operand_value(args, n);
            execute_java_text_index_values(&x, &y, false)
        },
        JavaCompatUdfBody::LastIndexOfOperands(v, n) => {
            let x = java_runtime_operand_value(args, v);
            let y = java_runtime_operand_value(args, n);
            execute_java_text_index_values(&x, &y, true)
        },
        JavaCompatUdfBody::ReplaceOperands(v, t, r) => {
            let x = java_runtime_operand_value(args, v);
            let y = java_runtime_operand_value(args, t);
            let z = java_runtime_operand_value(args, r);
            execute_java_text_replace_values(&x, &y, &z)
        },
        JavaCompatUdfBody::Negate(i) => execute_java_negate(rt, args, *i),
        JavaCompatUdfBody::Not(i) => execute_java_not(rt, get_arg(args, *i)),
        JavaCompatUdfBody::And(l, r) => execute_java_boolean_binary(rt, args, *l, *r, true),
        JavaCompatUdfBody::Or(l, r) => execute_java_boolean_binary(rt, args, *l, *r, false),
        JavaCompatUdfBody::AddOperands(l, r) => execute_java_arith_operands(ArithOp::Add, rt, args, l, r),
        JavaCompatUdfBody::SubtractOperands(l, r) => execute_java_arith_operands(ArithOp::Subtract, rt, args, l, r),
        JavaCompatUdfBody::MultiplyOperands(l, r) => execute_java_arith_operands(ArithOp::Multiply, rt, args, l, r),
        JavaCompatUdfBody::DivideOperands(l, r) => execute_java_arith_operands(ArithOp::Divide, rt, args, l, r),
        JavaCompatUdfBody::RemainderOperands(l, r) => execute_java_arith_operands(ArithOp::Remainder, rt, args, l, r),
        JavaCompatUdfBody::CompareOperands(c, l, r) => {
            let a = java_runtime_operand_value(args, l);
            let b = java_runtime_operand_value(args, r);
            execute_java_compare_values(rt, &a, &b, *c)
        },
    }
}

/// Whether some argument is null.
pub fn any_null(args: &[UdfValue]) -> (r: bool)
    ensures
        r == exists|i: int| 0 <= i < args@.len() && #[trigger] udf_views(args@)[i] == UdfVal::Null,
{
    let mut i: usize = 0;
    while i < args.len()
        invariant
            i <= args.len(),
            forall|j: int| 0 <= j < i ==> #[trigger] udf_views(args@)[j] != UdfVal::Null,
        decreases args.len() - i,
    {
        if let UdfValue::Null = &args[i] {
            assert(udf_views(args@)[i as int] == UdfVal::Null);
            return true;
        }
        i = i + 1;
    }
    false
}

} // verus!

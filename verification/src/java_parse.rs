//! Recognition of Java function bodies: the executable side of the
//! specification in `java_body`.
use vstd::prelude::*;
use crate::chars::{
    trim, lower, eq_ignore_case, find, split_once, strip_prefix, strip_suffix, parse_i64,
    opt_index, opt_chars, opt_pair, trim_chars, lower_chars, eq_ignore_case_exec, find_exec,
    split_once_exec, strip_prefix_exec, strip_suffix_exec, parse_i64_exec, slice_chars,
    lemma_find_from_bounds,
};
use crate::java_body::{
    JavaCompatComparison, JavaCompatLiteral, JavaCompatOperand, JavaCompatUdfBody, Body, Operand,
    opt_body, opt_operand, opt_operands, arg_names, arg_index, arg_index_from, parse_literal,
    parse_operand, non_arg_arg, parse_method_call, parse_method_operands, comma_parts,
    parse_substring_call, parse_substring_operands, parse_replace_call, parse_replace_operands,
    parse_binary_operands, parse_binary_args, body_expression, unary_body, parse_negation,
    parse_text_methods, comparison_ops, parse_comparison_from, arith_ops, arith_body,
    arith_operands_body, parse_arith_from, parse_operators, parse_expression, parse_java_body,
};
use crate::text::{chars_of, string_from_chars};

verus! {

broadcast use vstd::seq_lib::group_seq_properties;

/// The views of a vector of character vectors.
pub open spec fn chars_views(v: Seq<Vec<char>>) -> Seq<Seq<char>> {
    v.map_values(|x: Vec<char>| x@)
}

/// Position of the first argument whose name equals `name`, ignoring ASCII case.
pub fn java_arg_index(name: &[char], args: &[(String, String)]) -> (r: Option<usize>)
    ensures
        opt_index(r) == arg_index(name@, arg_names(args@)),
{
    let mut i: usize = 0;
    while i < args.len()
        invariant
            i <= args@.len(),
            arg_index(name@, arg_names(args@)) == arg_index_from(name@, arg_names(args@), i as int),
        decreases args.len() - i,
    {
        let arg_name = chars_of(args[i].0.as_str());
        assert(arg_names(args@)[i as int] == arg_name@);
        if eq_ignore_case_exec(&arg_name, name) {
            return Some(i);
        }
        i = i + 1;
    }
    None
}

fn string_of(v: &[char]) -> (s: String)
    ensures
        s@ == v@,
{
    string_from_chars(v)
}

/// A literal token: a double-quoted string, `true`/`false`, or a 64-bit integer.
pub fn parse_java_literal(token: &[char]) -> (r: Option<JavaCompatLiteral<String>>)
    ensures
        (match r { Some(l) => Some(l@), None => None }) == parse_literal(token@),
{
    let t = trim_chars(token);
    let n = t.len();
    if n >= 2 && t[0] == '"' && t[n - 1] == '"' {
        let inner = slice_chars(&t, 1, n - 1);
        return Some(JavaCompatLiteral::Text(string_of(&inner)));
    }
    let true_chars = chars_of("true");
    if eq_ignore_case_exec(&t, &true_chars) {
        return Some(JavaCompatLiteral::Boolean(true));
    }
    let false_chars = chars_of("false");
    if eq_ignore_case_exec(&t, &false_chars) {
        return Some(JavaCompatLiteral::Boolean(false));
    }
    let mut dot: Vec<char> = Vec::new();
    dot.push('.');
    assert(dot@ =~= seq!['.']);
    if find_exec(&t, &dot).is_some() {
        return None;
    }
    match parse_i64_exec(&t) {
        Some(v) => Some(JavaCompatLiteral::Int(v)),
        None => None,
    }
}

/// An operand token: an argument name, else a literal.
pub fn parse_java_operand(token: &[char], args: &[(String, String)]) -> (r: Option<JavaCompatOperand<String>>)
    ensures
        opt_operand(r) == parse_operand(token@, arg_names(args@)),
{
    match java_arg_index(token, args) {
        Some(i) => Some(JavaCompatOperand::Arg(i)),
        None => match parse_java_literal(token) {
            Some(l) => Some(JavaCompatOperand::Literal(l)),
            None => None,
        },
    }
}

fn java_non_arg_arg_operands(l: JavaCompatOperand<String>, r: JavaCompatOperand<String>) -> (res: Option<(JavaCompatOperand<String>, JavaCompatOperand<String>)>)
    ensures
        opt_operands(res) == non_arg_arg(l@, r@),
{
    match (&l, &r) {
        (JavaCompatOperand::Arg(_), JavaCompatOperand::Arg(_)) => None,
        _ => Some((l, r)),
    }
}

/// `<lhs><method><rhs>)` over argument names of the lower-cased expression `e`.
pub fn parse_java_text_binary_call(e: &[char], method: &[char], args: &[(String, String)]) -> (r: Option<(usize, usize)>)
    ensures
        (match r { Some(p) => Some((p.0 as int, p.1 as int)), None => None })
            == parse_method_call(e@, method@, arg_names(args@)),
{
    let close = chars_of(")");
    match split_once_exec(e, method) {
        Some((lhs, rhs0)) => match strip_suffix_exec(&rhs0, &close) {
            Some(rhs) => {
                let l = java_arg_index(&trim_chars(&lhs), args);
                let r = java_arg_index(&trim_chars(&rhs), args);
                match (l, r) {
                    (Some(l), Some(r)) => Some((l, r)),
                    _ => None,
                }
            },
            None => None,
        },
        None => None,
    }
}

/// `<lhs>.equals(<rhs>)` over argument names of the lower-cased expression `e`.
pub fn parse_java_equals_call(e: &[char], args: &[(String, String)]) -> (r: Option<(usize, usize)>)
    ensures
        (match r { Some(p) => Some((p.0 as int, p.1 as int)), None => None })
            == parse_method_call(e@, ".equals("@, arg_names(args@)),
{
    let method = chars_of(".equals(");
    parse_java_text_binary_call(e, &method, args)
}

/// `<lhs><method><rhs>)` over operands of the original text `raw`.
pub fn parse_java_text_binary_call_operands(raw: &[char], method: &[char], args: &[(String, String)]) -> (r: Option<(JavaCompatOperand<String>, JavaCompatOperand<String>)>)
    ensures
        opt_operands(r) == parse_method_operands(raw@, method@, arg_names(args@)),
{
    let normalized = lower_chars(raw);
    let close = chars_of(")");
    proof {
        lemma_find_from_bounds(lower(raw@), method@, 0);
    }
    match find_exec(&normalized, method) {
        Some(mi) => {
            let mlen = method.len();
            let rlen = raw.len();
            assert(mi + mlen <= rlen);
            let head = slice_chars(raw, 0, mi);
            match parse_java_operand(&trim_chars(&head), args) {
                Some(l) => {
                    let tail = slice_chars(raw, mi + mlen, rlen);
                    match strip_suffix_exec(&tail, &close) {
                        Some(rhs) => match parse_java_operand(&trim_chars(&rhs), args) {
                            Some(r) => java_non_arg_arg_operands(l, r),
                            None => None,
                        },
                        None => None,
                    }
                },
                None => None,
            }
        },
        None => None,
    }
}

fn parse_java_equals_operands(raw: &[char], args: &[(String, String)]) -> (r: Option<(JavaCompatOperand<String>, JavaCompatOperand<String>)>)
    ensures
        opt_operands(r) == parse_method_operands(raw@, ".equals("@, arg_names(args@)),
{
    let method = chars_of(".equals(");
    parse_java_text_binary_call_operands(raw, &method, args)
}

/// The pieces of `s` between commas.
pub fn comma_parts_exec(s: &[char]) -> (r: Vec<Vec<char>>)
    ensures
        chars_views(r@) == comma_parts(s@),
        r@.len() >= 1,
    decreases s.len(),
{
    let mut comma: Vec<char> = Vec::new();
    comma.push(',');
    assert(comma@ =~= seq![',']);
    proof {
        lemma_find_from_bounds(s@, seq![','], 0);
    }
    match find_exec(s, &comma) {
        Some(i) => {
            assert(i < s@.len());
            let head = slice_chars(s, 0, i);
            let tail = slice_chars(s, i + 1, s.len());
            let rest = comma_parts_exec(&tail);
            let mut out: Vec<Vec<char>> = Vec::new();
            out.push(head);
            let mut k: usize = 0;
            while k < rest.len()
                invariant
                    k <= rest@.len(),
                    i < s@.len(),
                    out@.len() == k + 1,
                    out@[0]@ == s@.subrange(0, i as int),
                    forall|j: int| 0 <= j < k ==> #[trigger] out@[j + 1]@ == rest@[j]@,
                decreases rest.len() - k,
            {
                out.push(slice_chars(&rest[k], 0, rest[k].len()));
                assert(rest@[k as int]@.subrange(0, rest@[k as int]@.len() as int) =~= rest@[k as int]@);
                k = k + 1;
            }
            assert forall|j: int| 0 <= j < out@.len() implies #[trigger] chars_views(out@)[j]
                == (seq![s@.subrange(0, i as int)] + chars_views(rest@))[j] by {
                if j > 0 {
                    assert(out@[(j - 1) + 1]@ == rest@[j - 1]@);
                }
            }
            assert(chars_views(out@) =~= seq![s@.subrange(0, i as int)] + chars_views(rest@));
            out
        },
        None => {
            let mut out: Vec<Vec<char>> = Vec::new();
            out.push(slice_chars(s, 0, s.len()));
            assert(s@.subrange(0, s@.len() as int) =~= s@);
            assert(chars_views(out@) =~= seq![s@]);
            out
        },
    }
}

/// `<value>.substring(<begin>[, <end>])` over argument names of the lower-cased expression `e`.
pub fn parse_java_substring_call(e: &[char], args: &[(String, String)]) -> (r: Option<(usize, usize, Option<usize>)>)
    ensures
        (match r {
            Some(p) => Some((p.0 as int, p.1 as int, match p.2 { Some(x) => Some(x as int), None => None })),
            None => None,
        }) == parse_substring_call(e@, arg_names(args@)),
{
    let method = chars_of(".substring(");
    let close = chars_of(")");
    match split_once_exec(e, &method) {
        Some((value, params0)) => match strip_suffix_exec(&params0, &close) {
            Some(params) => {
                let parts = comma_parts_exec(&params);
                if parts.len() > 2 {
                    return None;
                }
                let end: Option<Option<usize>> = if parts.len() == 2 {
                    match java_arg_index(&trim_chars(&parts[1]), args) {
                        Some(x) => Some(Some(x)),
                        None => None,
                    }
                } else {
                    Some(None)
                };
                let v = java_arg_index(&trim_chars(&value), args);
                let b = java_arg_index(&trim_chars(&parts[0]), args);
                match (end, v, b) {
                    (Some(end), Some(v), Some(b)) => Some((v, b, end)),
                    _ => None,
                }
            },
            None => None,
        },
        None => None,
    }
}

/// `<value>.substring(<begin>[, <end>])` over operands of the original text `raw`.
pub fn parse_java_substring_operands(raw: &[char], args: &[(String, String)]) -> (r: Option<(JavaCompatOperand<String>, JavaCompatOperand<String>, Option<JavaCompatOperand<String>>)>)
    ensures
        (match r {
            Some(p) => Some((p.0@, p.1@, opt_operand(p.2))),
            None => None,
        }) == parse_substring_operands(raw@, arg_names(args@)),
{
    let method = chars_of(".substring(");
    let close = chars_of(")");
    let normalized = lower_chars(raw);
    proof {
        lemma_find_from_bounds(lower(raw@), method@, 0);
        reveal_strlit(".substring(");
    }
    match find_exec(&normalized, &method) {
        Some(mi) => {
            let rlen = raw.len();
            assert(mi + 11 <= rlen);
            let head = slice_chars(raw, 0, mi);
            match parse_java_operand(&trim_chars(&head), args) {
                Some(value) => {
                    let tail = slice_chars(raw, mi + 11, rlen);
                    match strip_suffix_exec(&tail, &close) {
                        Some(params) => {
                            let parts = comma_parts_exec(&params);
                            match parse_java_operand(&trim_chars(&parts[0]), args) {
                                Some(begin) => {
                                    let end: Option<Option<JavaCompatOperand<String>>> = if parts.len() >= 2 {
                                        match parse_java_operand(&trim_chars(&parts[1]), args) {
                                            Some(x) => Some(Some(x)),
                                            None => None,
                                        }
                                    } else {
                                        Some(None)
                                    };
                                    match end {
                                        Some(end) => {
                                            if parts.len() > 2 {
                                                return None;
                                            }
                                            let all_args = match (&value, &begin, &end) {
                                                (JavaCompatOperand::Arg(_), JavaCompatOperand::Arg(_), None) => true,
                                                (JavaCompatOperand::Arg(_), JavaCompatOperand::Arg(_), Some(JavaCompatOperand::Arg(_))) => true,
                                                _ => false,
                                            };
                                            if all_args {
                                                None
                                            } else {
                                                Some((value, begin, end))
                                            }
                                        },
                                        None => None,
                                    }
                                },
                                None => None,
                            }
                        },
                        None => None,
                    }
                },
                None => None,
            }
        },
        None => None,
    }
}

/// `<value>.replace(<target>, <replacement>)` over argument names of the lower-cased expression `e`.
pub fn parse_java_replace_call(e: &[char], args: &[(String, String)]) -> (r: Option<(usize, usize, usize)>)
    ensures
        (match r { Some(p) => Some((p.0 as int, p.1 as int, p.2 as int)), None => None })
            == parse_replace_call(e@, arg_names(args@)),
{
    let method = chars_of(".replace(");
    let close = chars_of(")");
    match split_once_exec(e, &method) {
        Some((value, params0)) => match strip_suffix_exec(&params0, &close) {
            Some(params) => {
                let parts = comma_parts_exec(&params);
                if parts.len() != 2 {
                    return None;
                }
                let v = java_arg_index(&trim_chars(&value), args);
                let t = java_arg_index(&trim_chars(&parts[0]), args);
                let r = java_arg_index(&trim_chars(&parts[1]), args);
                match (v, t, r) {
                    (Some(v), Some(t), Some(r)) => Some((v, t, r)),
                    _ => None,
                }
            },
            None => None,
        },
        None => None,
    }
}

/// `<value>.replace(<target>, <replacement>)` over operands of the original text `raw`.
pub fn parse_java_replace_operands(raw: &[char], args: &[(String, String)]) -> (r: Option<(JavaCompatOperand<String>, JavaCompatOperand<String>, JavaCompatOperand<String>)>)
    ensures
        (match r {
            Some(p) => Some((p.0@, p.1@, p.2@)),
            None => None,
        }) == parse_replace_operands(raw@, arg_names(args@)),
{
    let method = chars_of(".replace(");
    let close = chars_of(")");
    let normalized = lower_chars(raw);
    proof {
        lemma_find_from_bounds(lower(raw@), method@, 0);
        reveal_strlit(".replace(");
    }
    match find_exec(&normalized, &method) {
        Some(mi) => {
            let rlen = raw.len();
            assert(mi + 9 <= rlen);
            let head = slice_chars(raw, 0, mi);
            match parse_java_operand(&trim_chars(&head), args) {
                Some(value) => {
                    let tail = slice_chars(raw, mi + 9, rlen);
                    match strip_suffix_exec(&tail, &close) {
                        Some(params) => {
                            let parts = comma_parts_exec(&params);
                            match parse_java_operand(&trim_chars(&parts[0]), args) {
                                Some(target) => {
                                    if parts.len() < 2 {
                                        return None;
                                    }
                                    match parse_java_operand(&trim_chars(&parts[1]), args) {
                                        Some(replacement) => {
                                            if parts.len() > 2 {
                                                return None;
                                            }
                                            let all_args = match (&value, &target, &replacement) {
                                                (JavaCompatOperand::Arg(_), JavaCompatOperand::Arg(_), JavaCompatOperand::Arg(_)) => true,
                                                _ => false,
                                            };
                                            if all_args {
                                                None
                                            } else {
                                                Some((value, target, replacement))
                                            }
                                        },
                                        None => None,
                                    }
                                },
                                None => None,
                            }
                        },
                        None => None,
                    }
                },
                None => None,
            }
        },
        None => None,
    }
}

/// `<lhs><op><rhs>` over operands of the original text `raw`.
pub fn parse_java_binary_operands_str(raw: &[char], op: &[char], args: &[(String, String)]) -> (r: Option<(JavaCompatOperand<String>, JavaCompatOperand<String>)>)
    ensures
        opt_operands(r) == parse_binary_operands(raw@, op@, arg_names(args@)),
{
    match split_once_exec(raw, op) {
        Some((l0, r0)) => {
            let l = parse_java_operand(&trim_chars(&l0), args);
            let r = parse_java_operand(&trim_chars(&r0), args);
            match (l, r) {
                (Some(l), Some(r)) => java_non_arg_arg_operands(l, r),
                _ => None,
            }
        },
        None => None,
    }
}

fn parse_binary_args_exec(e: &[char], op: &[char], args: &[(String, String)]) -> (r: Option<Option<(usize, usize)>>)
    ensures
        (match r {
            Some(Some(p)) => Some(Some((p.0 as int, p.1 as int))),
            Some(None) => Some(None),
            None => None,
        }) == parse_binary_args(e@, op@, arg_names(args@)),
{
    match split_once_exec(e, op) {
        Some((l, r)) => {
            let a = java_arg_index(&trim_chars(&l), args);
            let b = java_arg_index(&trim_chars(&r), args);
            match (a, b) {
                (Some(a), Some(b)) => Some(Some((a, b))),
                _ => Some(None),
            }
        },
        None => None,
    }
}

fn body_expression_exec(body: &str) -> (r: Option<Vec<char>>)
    ensures
        opt_chars(r) == body_expression(body@),
{
    let chars = chars_of(body);
    let trimmed = trim_chars(&chars);
    let prefix = chars_of("return ");
    let semicolon = chars_of(";");
    match strip_prefix_exec(&trimmed, &prefix) {
        Some(a) => match strip_suffix_exec(&a, &semicolon) {
            Some(b) => Some(trim_chars(&b)),
            None => None,
        },
        None => None,
    }
}

fn unary_index(name: &[char], args: &[(String, String)]) -> (r: Option<usize>)
    ensures
        opt_index(r) == arg_index(name@, arg_names(args@)),
{
    java_arg_index(name, args)
}

fn parse_negation_exec(rest: &[char], raw: &[char], args: &[(String, String)]) -> (r: Option<JavaCompatUdfBody<String>>)
    ensures
        opt_body(r) == parse_negation(rest@, raw@, arg_names(args@)),
{
    let rest_trimmed = trim_chars(rest);
    match parse_java_equals_call(&rest_trimmed, args) {
        Some((l, r)) => Some(JavaCompatUdfBody::Compare(JavaCompatComparison::Ne, l, r)),
        None => {
            let bang = chars_of("!");
            match strip_prefix_exec(raw, &bang) {
                Some(rb) => {
                    match parse_java_equals_operands(&trim_chars(&rb), args) {
                        Some((l, r)) => {
                            return Some(JavaCompatUdfBody::CompareOperands(JavaCompatComparison::Ne, l, r));
                        },
                        None => {},
                    }
                },
                None => {},
            }
            match unary_index(&rest_trimmed, args) {
                Some(i) => Some(JavaCompatUdfBody::Not(i)),
                None => None,
            }
        },
    }
}

/// The view of a twice-optional body.
pub open spec fn opt_opt_body(r: Option<Option<JavaCompatUdfBody<String>>>) -> Option<Option<Body>> {
    match r {
        Some(x) => Some(opt_body(x)),
        None => None,
    }
}

fn parse_text_methods_exec(e: &[char], raw: &[char], args: &[(String, String)]) -> (r: Option<Option<JavaCompatUdfBody<String>>>)
    ensures
        opt_opt_body(r) == parse_text_methods(e@, raw@, arg_names(args@)),
{
    let contains = chars_of(".contains(");
    let starts = chars_of(".startswith(");
    let ends = chars_of(".endswith(");
    let index_of = chars_of(".indexof(");
    let last_index_of = chars_of(".lastindexof(");
    if let Some((l, r)) = parse_java_text_binary_call(e, &contains, args) {
        return Some(Some(JavaCompatUdfBody::Contains(l, r)));
    }
    if let Some((l, r)) = parse_java_text_binary_call_operands(raw, &contains, args) {
        return Some(Some(JavaCompatUdfBody::ContainsOperands(l, r)));
    }
    if let Some((l, r)) = parse_java_text_binary_call(e, &starts, args) {
        return Some(Some(JavaCompatUdfBody::StartsWith(l, r)));
    }
    if let Some((l, r)) = parse_java_text_binary_call_operands(raw, &starts, args) {
        return Some(Some(JavaCompatUdfBody::StartsWithOperands(l, r)));
    }
    if let Some((l, r)) = parse_java_text_binary_call(e, &ends, args) {
        return Some(Some(JavaCompatUdfBody::EndsWith(l, r)));
    }
    if let Some((l, r)) = parse_java_text_binary_call_operands(raw, &ends, args) {
        return Some(Some(JavaCompatUdfBody::EndsWithOperands(l, r)));
    }
    if let Some((v, b, end)) = parse_java_substring_call(e, args) {
        return Some(Some(match end {
            Some(x) => JavaCompatUdfBody::SubstringRange(v, b, x),
            None => JavaCompatUdfBody::Substring(v, b),
        }));
    }
    if let Some((v, b, end)) = parse_java_substring_operands(raw, args) {
        return Some(Some(match end {
            Some(x) => JavaCompatUdfBody::SubstringRangeOperands(v, b, x),
            None => JavaCompatUdfBody::SubstringOperands(v, b),
        }));
    }
    if let Some((l, r)) = parse_java_text_binary_call(e, &index_of, args) {
        return Some(Some(JavaCompatUdfBody::IndexOf(l, r)));
    }
    if let Some((l, r)) = parse_java_text_binary_call_operands(raw, &index_of, args) {
        return Some(Some(JavaCompatUdfBody::IndexOfOperands(l, r)));
    }
    if let Some((l, r)) = parse_java_text_binary_call(e, &last_index_of, args) {
        return Some(Some(JavaCompatUdfBody::LastIndexOf(l, r)));
    }
    if let Some((l, r)) = parse_java_text_binary_call_operands(raw, &last_index_of, args) {
        return Some(Some(JavaCompatUdfBody::LastIndexOfOperands(l, r)));
    }
    if let Some((v, t, r)) = parse_java_replace_call(e, args) {
        return Some(Some(JavaCompatUdfBody::Replace(v, t, r)));
    }
    if let Some((v, t, r)) = parse_java_replace_operands(raw, args) {
        return Some(Some(JavaCompatUdfBody::ReplaceOperands(v, t, r)));
    }
    None
}

fn comparison_op(k: usize) -> (r: (Vec<char>, JavaCompatComparison))
    requires
        k < 6,
    ensures
        r.0@ == comparison_ops()[k as int].0,
        r.1 == comparison_ops()[k as int].1,
{
    if k == 0 {
        (chars_of(">="), JavaCompatComparison::Gte)
    } else if k == 1 {
        (chars_of("<="), JavaCompatComparison::Lte)
    } else if k == 2 {
        (chars_of("=="), JavaCompatComparison::Eq)
    } else if k == 3 {
        (chars_of("!="), JavaCompatComparison::Ne)
    } else if k == 4 {
        (chars_of(">"), JavaCompatComparison::Gt)
    } else {
        (chars_of("<"), JavaCompatComparison::Lt)
    }
}

fn parse_comparison_exec(e: &[char], raw: &[char], args: &[(String, String)], k: usize) -> (r: Option<Option<JavaCompatUdfBody<String>>>)
    requires
        k <= 6,
    ensures
        opt_opt_body(r) == parse_comparison_from(e@, raw@, arg_names(args@), k as int),
    decreases 6 - k,
{
    if k >= 6 {
        return None;
    }
    let (op, comparison) = comparison_op(k);
    match parse_binary_args_exec(e, &op, args) {
        Some(Some((l, r))) => Some(Some(JavaCompatUdfBody::Compare(comparison, l, r))),
        Some(None) => match parse_java_binary_operands_str(raw, &op, args) {
            Some((l, r)) => Some(Some(JavaCompatUdfBody::CompareOperands(comparison, l, r))),
            None => Some(None),
        },
        None => parse_comparison_exec(e, raw, args, k + 1),
    }
}

fn arith_op(k: usize) -> (r: Vec<char>)
    requires
        k < 5,
    ensures
        r@ == seq![arith_ops()[k as int]],
{
    let c = if k == 0 { '+' } else if k == 1 { '-' } else if k == 2 { '*' } else if k == 3 { '/' } else { '%' };
    let mut v: Vec<char> = Vec::new();
    v.push(c);
    assert(v@ =~= seq![arith_ops()[k as int]]);
    v
}

fn arith_body_exec(k: usize, l: usize, r: usize) -> (b: JavaCompatUdfBody<String>)
    ensures
        b@ == arith_body(k as int, l, r),
{
    if k == 0 {
        JavaCompatUdfBody::Add(l, r)
    } else if k == 1 {
        JavaCompatUdfBody::Subtract(l, r)
    } else if k == 2 {
        JavaCompatUdfBody::Multiply(l, r)
    } else if k == 3 {
        JavaCompatUdfBody::Divide(l, r)
    } else {
        JavaCompatUdfBody::Remainder(l, r)
    }
}

fn arith_operands_body_exec(k: usize, l: JavaCompatOperand<String>, r: JavaCompatOperand<String>) -> (b: JavaCompatUdfBody<String>)
    ensures
        b@ == arith_operands_body(k as int, l@, r@),
{
    if k == 0 {
        JavaCompatUdfBody::AddOperands(l, r)
    } else if k == 1 {
        JavaCompatUdfBody::SubtractOperands(l, r)
    } else if k == 2 {
        JavaCompatUdfBody::MultiplyOperands(l, r)
    } else if k == 3 {
        JavaCompatUdfBody::DivideOperands(l, r)
    } else {
        JavaCompatUdfBody::RemainderOperands(l, r)
    }
}

fn parse_arith_exec(e: &[char], raw: &[char], args: &[(String, String)], k: usize) -> (r: Option<Option<JavaCompatUdfBody<String>>>)
    requires
        k <= 5,
    ensures
        opt_opt_body(r) == parse_arith_from(e@, raw@, arg_names(args@), k as int),
    decreases 5 - k,
{
    if k >= 5 {
        return None;
    }
    let op = arith_op(k);
    match parse_binary_args_exec(e, &op, args) {
        Some(Some((l, r))) => Some(Some(arith_body_exec(k, l, r))),
        Some(None) => match parse_java_binary_operands_str(raw, &op, args) {
            Some((l, r)) => Some(Some(arith_operands_body_exec(k, l, r))),
            None => Some(None),
        },
        None => parse_arith_exec(e, raw, args, k + 1),
    }
}

fn parse_operators_exec(e: &[char], raw: &[char], args: &[(String, String)]) -> (r: Option<JavaCompatUdfBody<String>>)
    ensures
        opt_body(r) == parse_operators(e@, raw@, arg_names(args@)),
{
    let and = chars_of("&&");
    let or = chars_of("||");
    if let Some(x) = parse_binary_args_exec(e, &and, args) {
        return match x {
            Some((l, r)) => Some(JavaCompatUdfBody::And(l, r)),
            None => None,
        };
    }
    if let Some(x) = parse_binary_args_exec(e, &or, args) {
        return match x {
            Some((l, r)) => Some(JavaCompatUdfBody::Or(l, r)),
            None => None,
        };
    }
    if let Some(x) = parse_comparison_exec(e, raw, args, 0) {
        return x;
    }
    let minus = chars_of("-");
    if let Some(a) = strip_prefix_exec(e, &minus) {
        return match unary_index(&trim_chars(&a), args) {
            Some(i) => Some(JavaCompatUdfBody::Negate(i)),
            None => None,
        };
    }
    if let Some(x) = parse_arith_exec(e, raw, args, 0) {
        return x;
    }
    let to_lower = chars_of(".tolowercase()");
    if let Some(a) = strip_suffix_exec(e, &to_lower) {
        return match unary_index(&trim_chars(&a), args) {
            Some(i) => Some(JavaCompatUdfBody::Lower(i)),
            None => None,
        };
    }
    let to_upper = chars_of(".touppercase()");
    if let Some(a) = strip_suffix_exec(e, &to_upper) {
        return match unary_index(&trim_chars(&a), args) {
            Some(i) => Some(JavaCompatUdfBody::Upper(i)),
            None => None,
        };
    }
    match unary_index(e, args) {
        Some(i) => Some(JavaCompatUdfBody::Identity(i)),
        None => None,
    }
}

fn parse_expression_exec(e: &[char], raw: &[char], args: &[(String, String)]) -> (r: Option<JavaCompatUdfBody<String>>)
    ensures
        opt_body(r) == parse_expression(e@, raw@, arg_names(args@)),
{
    let bang = chars_of("!");
    if let Some(rest) = strip_prefix_exec(e, &bang) {
        return parse_negation_exec(&rest, raw, args);
    }
    if let Some((l, r)) = parse_java_equals_call(e, args) {
        return Some(JavaCompatUdfBody::Compare(JavaCompatComparison::Eq, l, r));
    }
    if let Some((l, r)) = parse_java_equals_operands(raw, args) {
        return Some(JavaCompatUdfBody::CompareOperands(JavaCompatComparison::Eq, l, r));
    }
    let length = chars_of(".length()");
    if let Some(a) = strip_suffix_exec(e, &length) {
        return match unary_index(&trim_chars(&a), args) {
            Some(i) => Some(JavaCompatUdfBody::Length(i)),
            None => None,
        };
    }
    let trim_method = chars_of(".trim()");
    if let Some(a) = strip_suffix_exec(e, &trim_method) {
        return match unary_index(&trim_chars(&a), args) {
            Some(i) => Some(JavaCompatUdfBody::Trim(i)),
            None => None,
        };
    }
    let is_empty = chars_of(".isempty()");
    if let Some(a) = strip_suffix_exec(e, &is_empty) {
        return match unary_index(&trim_chars(&a), args) {
            Some(i) => Some(JavaCompatUdfBody::IsEmpty(i)),
            None => None,
        };
    }
    if let Some(x) = parse_text_methods_exec(e, raw, args) {
        return x;
    }
    parse_operators_exec(e, raw, args)
}

/// Recognises the body of a Java function over the given arguments
/// (name and CQL type), or `None` when the body is not one this server runs.
pub fn parse_java_compat_body(body: &str, args: &[(String, String)]) -> (r: Option<JavaCompatUdfBody<String>>)
    ensures
        opt_body(r) == parse_java_body(body@, arg_names(args@)),
{
    match body_expression_exec(body) {
        Some(raw) => {
            let normalized = lower_chars(&raw);
            parse_expression_exec(&normalized, &raw, args)
        },
        None => None,
    }
}

} // verus!

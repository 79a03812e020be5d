//! The Java function bodies a CQL server runs without a JVM: a single
//! `return <expression>;` over the arguments and literals, recognised by
//! pattern and turned into a [`JavaCompatUdfBody`].
use vstd::prelude::*;
use crate::chars::{trim, lower, eq_ignore_case, find, split_once, strip_prefix, strip_suffix, parse_i64};
use crate::text::chars_of;

verus! {

broadcast use vstd::seq_lib::group_seq_properties;

/// A comparison operator.
#[derive(Debug, Clone, Copy, PartialEq, Eq, Structural)]
pub enum JavaCompatComparison {
    Eq,
    Ne,
    Gt,
    Gte,
    Lt,
    Lte,
}

/// A literal of a function body; `T` is the type of its text.
#[derive(Debug, Clone)]
pub enum JavaCompatLiteral<T> {
    Int(i64),
    Text(T),
    Boolean(bool),
}

/// An operand: an argument by position, or a literal.
#[derive(Debug, Clone)]
pub enum JavaCompatOperand<T> {
    Arg(usize),
    Literal(JavaCompatLiteral<T>),
}

/// A recognised function body. Variants over positions use arguments only;
/// the `...Operands` variants mix arguments and literals.
#[derive(Debug, Clone)]
pub enum JavaCompatUdfBody<T> {
    Identity(usize),
    Lower(usize),
    Upper(usize),
    Add(usize, usize),
    Subtract(usize, usize),
    Multiply(usize, usize),
    Divide(usize, usize),
    Remainder(usize, usize),
    Compare(JavaCompatComparison, usize, usize),
    Length(usize),
    Trim(usize),
    IsEmpty(usize),
    Contains(usize, usize),
    StartsWith(usize, usize),
    EndsWith(usize, usize),
    Substring(usize, usize),
    SubstringRange(usize, usize, usize),
    IndexOf(usize, usize),
    LastIndexOf(usize, usize),
    Replace(usize, usize, usize),
    ContainsOperands(JavaCompatOperand<T>, JavaCompatOperand<T>),
    StartsWithOperands(JavaCompatOperand<T>, JavaCompatOperand<T>),
    EndsWithOperands(JavaCompatOperand<T>, JavaCompatOperand<T>),
    SubstringOperands(JavaCompatOperand<T>, JavaCompatOperand<T>),
    SubstringRangeOperands(JavaCompatOperand<T>, JavaCompatOperand<T>, JavaCompatOperand<T>),
    IndexOfOperands(JavaCompatOperand<T>, JavaCompatOperand<T>),
    LastIndexOfOperands(JavaCompatOperand<T>, JavaCompatOperand<T>),
    ReplaceOperands(JavaCompatOperand<T>, JavaCompatOperand<T>, JavaCompatOperand<T>),
    Negate(usize),
    Not(usize),
    And(usize, usize),
    Or(usize, usize),
    AddOperands(JavaCompatOperand<T>, JavaCompatOperand<T>),
    SubtractOperands(JavaCompatOperand<T>, JavaCompatOperand<T>),
    MultiplyOperands(JavaCompatOperand<T>, JavaCompatOperand<T>),
    DivideOperands(JavaCompatOperand<T>, JavaCompatOperand<T>),
    RemainderOperands(JavaCompatOperand<T>, JavaCompatOperand<T>),
    CompareOperands(JavaCompatComparison, JavaCompatOperand<T>, JavaCompatOperand<T>),
}

/// Literal with its text as characters.
pub type Lit = JavaCompatLiteral<Seq<char>>;
/// Operand with literal text as characters.
pub type Operand = JavaCompatOperand<Seq<char>>;
/// Body with literal text as characters.
pub type Body = JavaCompatUdfBody<Seq<char>>;

impl View for JavaCompatLiteral<String> {
    type V = Lit;

    open spec fn view(&self) -> Lit {
        match self {
            JavaCompatLiteral::Int(v) => JavaCompatLiteral::Int(*v),
            JavaCompatLiteral::Text(s) => JavaCompatLiteral::Text(s@),
            JavaCompatLiteral::Boolean(b) => JavaCompatLiteral::Boolean(*b),
        }
    }
}

impl View for JavaCompatOperand<String> {
    type V = Operand;

    open spec fn view(&self) -> Operand {
        match self {
            JavaCompatOperand::Arg(i) => JavaCompatOperand::Arg(*i),
            JavaCompatOperand::Literal(l) => JavaCompatOperand::Literal(l@),
        }
    }
}

impl View for JavaCompatUdfBody<String> {
    type V = Body;

    open spec fn view(&self) -> Body {
        match self {
            JavaCompatUdfBody::Identity(a) => JavaCompatUdfBody::Identity(*a),
            JavaCompatUdfBody::Lower(a) => JavaCompatUdfBody::Lower(*a),
            JavaCompatUdfBody::Upper(a) => JavaCompatUdfBody::Upper(*a),
            JavaCompatUdfBody::Add(a, b) => JavaCompatUdfBody::Add(*a, *b),
            JavaCompatUdfBody::Subtract(a, b) => JavaCompatUdfBody::Subtract(*a, *b),
            JavaCompatUdfBody::Multiply(a, b) => JavaCompatUdfBody::Multiply(*a, *b),
            JavaCompatUdfBody::Divide(a, b) => JavaCompatUdfBody::Divide(*a, *b),
            JavaCompatUdfBody::Remainder(a, b) => JavaCompatUdfBody::Remainder(*a, *b),
            JavaCompatUdfBody::Compare(c, a, b) => JavaCompatUdfBody::Compare(*c, *a, *b),
            JavaCompatUdfBody::Length(a) => JavaCompatUdfBody::Length(*a),
            JavaCompatUdfBody::Trim(a) => JavaCompatUdfBody::Trim(*a),
            JavaCompatUdfBody::IsEmpty(a) => JavaCompatUdfBody::IsEmpty(*a),
            JavaCompatUdfBody::Contains(a, b) => JavaCompatUdfBody::Contains(*a, *b),
            JavaCompatUdfBody::StartsWith(a, b) => JavaCompatUdfBody::StartsWith(*a, *b),
            JavaCompatUdfBody::EndsWith(a, b) => JavaCompatUdfBody::EndsWith(*a, *b),
            JavaCompatUdfBody::Substring(a, b) => JavaCompatUdfBody::Substring(*a, *b),
            JavaCompatUdfBody::SubstringRange(a, b, c) => JavaCompatUdfBody::SubstringRange(*a, *b, *c),
            JavaCompatUdfBody::IndexOf(a, b) => JavaCompatUdfBody::IndexOf(*a, *b),
            JavaCompatUdfBody::LastIndexOf(a, b) => JavaCompatUdfBody::LastIndexOf(*a, *b),
            JavaCompatUdfBody::Replace(a, b, c) => JavaCompatUdfBody::Replace(*a, *b, *c),
            JavaCompatUdfBody::ContainsOperands(a, b) => JavaCompatUdfBody::ContainsOperands(a@, b@),
            JavaCompatUdfBody::StartsWithOperands(a, b) => JavaCompatUdfBody::StartsWithOperands(a@, b@),
            JavaCompatUdfBody::EndsWithOperands(a, b) => JavaCompatUdfBody::EndsWithOperands(a@, b@),
            JavaCompatUdfBody::SubstringOperands(a, b) => JavaCompatUdfBody::SubstringOperands(a@, b@),
            JavaCompatUdfBody::SubstringRangeOperands(a, b, c) => JavaCompatUdfBody::SubstringRangeOperands(a@, b@, c@),
            JavaCompatUdfBody::IndexOfOperands(a, b) => JavaCompatUdfBody::IndexOfOperands(a@, b@),
            JavaCompatUdfBody::LastIndexOfOperands(a, b) => JavaCompatUdfBody::LastIndexOfOperands(a@, b@),
            JavaCompatUdfBody::ReplaceOperands(a, b, c) => JavaCompatUdfBody::ReplaceOperands(a@, b@, c@),
            JavaCompatUdfBody::Negate(a) => JavaCompatUdfBody::Negate(*a),
            JavaCompatUdfBody::Not(a) => JavaCompatUdfBody::Not(*a),
            JavaCompatUdfBody::And(a, b) => JavaCompatUdfBody::And(*a, *b),
            JavaCompatUdfBody::Or(a, b) => JavaCompatUdfBody::Or(*a, *b),
            JavaCompatUdfBody::AddOperands(a, b) => JavaCompatUdfBody::AddOperands(a@, b@),
            JavaCompatUdfBody::SubtractOperands(a, b) => JavaCompatUdfBody::SubtractOperands(a@, b@),
            JavaCompatUdfBody::MultiplyOperands(a, b) => JavaCompatUdfBody::MultiplyOperands(a@, b@),
            JavaCompatUdfBody::DivideOperands(a, b) => JavaCompatUdfBody::DivideOperands(a@, b@),
            JavaCompatUdfBody::RemainderOperands(a, b) => JavaCompatUdfBody::RemainderOperands(a@, b@),
            JavaCompatUdfBody::CompareOperands(c, a, b) => JavaCompatUdfBody::CompareOperands(*c, a@, b@),
        }
    }
}

/// The view of an optional body.
pub open spec fn opt_body(r: Option<JavaCompatUdfBody<String>>) -> Option<Body> {
    match r {
        Some(b) => Some(b@),
        None => None,
    }
}

/// The view of an optional operand.
pub open spec fn opt_operand(r: Option<JavaCompatOperand<String>>) -> Option<Operand> {
    match r {
        Some(o) => Some(o@),
        None => None,
    }
}

/// The view of an optional pair of operands.
pub open spec fn opt_operands(r: Option<(JavaCompatOperand<String>, JavaCompatOperand<String>)>) -> Option<(Operand, Operand)> {
    match r {
        Some(p) => Some((p.0@, p.1@)),
        None => None,
    }
}

/// The names of the declared arguments.
pub open spec fn arg_names(args: Seq<(String, String)>) -> Seq<Seq<char>> {
    args.map_values(|a: (String, String)| a.0@)
}

// ─── Specification of the recogniser ────────────────────────────────────

/// Position of the first argument at or after `i` whose name equals `name`, ignoring ASCII case.
pub open spec fn arg_index_from(name: Seq<char>, names: Seq<Seq<char>>, i: int) -> Option<int>
    decreases names.len() - i,
{
    if i < 0 || i >= names.len() {
        None
    } else if eq_ignore_case(names[i], name) {
        Some(i)
    } else {
        arg_index_from(name, names, i + 1)
    }
}

/// Position of the first argument whose name equals `name`, ignoring ASCII case.
pub open spec fn arg_index(name: Seq<char>, names: Seq<Seq<char>>) -> Option<int> {
    arg_index_from(name, names, 0)
}

/// A literal token: a double-quoted string, `true`/`false` in any case, or an
/// integer that fits in 64 bits. Tokens with a `.` are decimal numbers, which
/// this recogniser does not accept.
pub open spec fn parse_literal(token: Seq<char>) -> Option<Lit> {
    let t = trim(token);
    if t.len() >= 2 && t[0] == '"' && t.last() == '"' {
        Some(JavaCompatLiteral::Text(t.subrange(1, t.len() - 1)))
    } else if eq_ignore_case(t, "true"@) {
        Some(JavaCompatLiteral::Boolean(true))
    } else if eq_ignore_case(t, "false"@) {
        Some(JavaCompatLiteral::Boolean(false))
    } else if find(t, seq!['.']) is Some {
        None
    } else {
        match parse_i64(t) {
            Some(v) => Some(JavaCompatLiteral::Int(v)),
            None => None,
        }
    }
}

/// An operand token: an argument name, else a literal.
pub open spec fn parse_operand(token: Seq<char>, names: Seq<Seq<char>>) -> Option<Operand> {
    match arg_index(token, names) {
        Some(i) => Some(JavaCompatOperand::Arg(i as usize)),
        None => match parse_literal(token) {
            Some(l) => Some(JavaCompatOperand::Literal(l)),
            None => None,
        },
    }
}

/// Two operands, unless both are arguments (that form has its own variant).
pub open spec fn non_arg_arg(l: Operand, r: Operand) -> Option<(Operand, Operand)> {
    if l is Arg && r is Arg { None } else { Some((l, r)) }
}

/// `<lhs><method><rhs>)` with both sides argument names; `e` is lower-cased.
pub open spec fn parse_method_call(e: Seq<char>, method: Seq<char>, names: Seq<Seq<char>>) -> Option<(int, int)> {
    match split_once(e, method) {
        Some((lhs, rhs0)) => match strip_suffix(rhs0, ")"@) {
            Some(rhs) => match (arg_index(trim(lhs), names), arg_index(trim(rhs), names)) {
                (Some(l), Some(r)) => Some((l, r)),
                _ => None,
            },
            None => None,
        },
        None => None,
    }
}

/// `<lhs><method><rhs>)` with operands, not both arguments; `raw` keeps its case
/// and the method is found case-insensitively.
pub open spec fn parse_method_operands(raw: Seq<char>, method: Seq<char>, names: Seq<Seq<char>>) -> Option<(Operand, Operand)> {
    match find(lower(raw), method) {
        Some(mi) => match parse_operand(trim(raw.subrange(0, mi)), names) {
            Some(l) => match strip_suffix(raw.subrange(mi + method.len(), raw.len() as int), ")"@) {
                Some(rhs) => match parse_operand(trim(rhs), names) {
                    Some(r) => non_arg_arg(l, r),
                    None => None,
                },
                None => None,
            },
            None => None,
        },
        None => None,
    }
}

/// The pieces of `s` between commas (`str::split(',')`).
pub open spec fn comma_parts(s: Seq<char>) -> Seq<Seq<char>>
    decreases s.len(),
{
    match find(s, seq![',']) {
        Some(i) => if 0 <= i < s.len() {
            seq![s.subrange(0, i)] + comma_parts(s.subrange(i + 1, s.len() as int))
        } else {
            seq![s]
        },
        None => seq![s],
    }
}

/// `<value>.substring(<begin>[, <end>])` over argument names; `e` is lower-cased.
pub open spec fn parse_substring_call(e: Seq<char>, names: Seq<Seq<char>>) -> Option<(int, int, Option<int>)> {
    match split_once(e, ".substring("@) {
        Some((value, params0)) => match strip_suffix(params0, ")"@) {
            Some(params) => {
                let parts = comma_parts(params);
                if parts.len() > 2 {
                    None
                } else {
                    let end: Option<Option<int>> = if parts.len() == 2 {
                        match arg_index(trim(parts[1]), names) {
                            Some(x) => Some(Some(x)),
                            None => None,
                        }
                    } else {
                        Some(None)
                    };
                    match (end, arg_index(trim(value), names), arg_index(trim(parts[0]), names)) {
                        (Some(end), Some(v), Some(b)) => Some((v, b, end)),
                        _ => None,
                    }
                }
            },
            None => None,
        },
        None => None,
    }
}

/// `<value>.substring(<begin>[, <end>])` over operands, not all arguments.
pub open spec fn parse_substring_operands(raw: Seq<char>, names: Seq<Seq<char>>) -> Option<(Operand, Operand, Option<Operand>)> {
    match find(lower(raw), ".substring("@) {
        Some(mi) => match parse_operand(trim(raw.subrange(0, mi)), names) {
            Some(value) => match strip_suffix(raw.subrange(mi + 11, raw.len() as int), ")"@) {
                Some(params) => {
                    let parts = comma_parts(params);
                    match parse_operand(trim(parts[0]), names) {
                        Some(begin) => {
                            let end: Option<Option<Operand>> = if parts.len() >= 2 {
                                match parse_operand(trim(parts[1]), names) {
                                    Some(x) => Some(Some(x)),
                                    None => None,
                                }
                            } else {
                                Some(None)
                            };
                            match end {
                                Some(end) => if parts.len() > 2 {
                                    None
                                } else if value is Arg && begin is Arg && (end is None || end->0 is Arg) {
                                    None
                                } else {
                                    Some((value, begin, end))
                                },
                                None => None,
                            }
                        },
                        None => None,
                    }
                },
                None => None,
            },
            None => None,
        },
        None => None,
    }
}

/// `<value>.replace(<target>, <replacement>)` over argument names; `e` is lower-cased.
pub open spec fn parse_replace_call(e: Seq<char>, names: Seq<Seq<char>>) -> Option<(int, int, int)> {
    match split_once(e, ".replace("@) {
        Some((value, params0)) => match strip_suffix(params0, ")"@) {
            Some(params) => {
                let parts = comma_parts(params);
                if parts.len() != 2 {
                    None
                } else {
                    match (arg_index(trim(value), names), arg_index(trim(parts[0]), names), arg_index(trim(parts[1]), names)) {
                        (Some(v), Some(t), Some(r)) => Some((v, t, r)),
                        _ => None,
                    }
                }
            },
            None => None,
        },
        None => None,
    }
}

/// `<value>.replace(<target>, <replacement>)` over operands, not all arguments.
pub open spec fn parse_replace_operands(raw: Seq<char>, names: Seq<Seq<char>>) -> Option<(Operand, Operand, Operand)> {
    match find(lower(raw), ".replace("@) {
        Some(mi) => match parse_operand(trim(raw.subrange(0, mi)), names) {
            Some(value) => match strip_suffix(raw.subrange(mi + 9, raw.len() as int), ")"@) {
                Some(params) => {
                    let parts = comma_parts(params);
                    match parse_operand(trim(parts[0]), names) {
                        Some(target) => if parts.len() < 2 {
                            None
                        } else {
                            match parse_operand(trim(parts[1]), names) {
                                Some(replacement) => if parts.len() > 2 {
                                    None
                                } else if value is Arg && target is Arg && replacement is Arg {
                                    None
                                } else {
                                    Some((value, target, replacement))
                                },
                                None => None,
                            }
                        },
                        None => None,
                    }
                },
                None => None,
            },
            None => None,
        },
        None => None,
    }
}

/// `<lhs><op><rhs>` over operands, not both arguments.
pub open spec fn parse_binary_operands(raw: Seq<char>, op: Seq<char>, names: Seq<Seq<char>>) -> Option<(Operand, Operand)> {
    match split_once(raw, op) {
        Some((l0, r0)) => match (parse_operand(trim(l0), names), parse_operand(trim(r0), names)) {
            (Some(l), Some(r)) => non_arg_arg(l, r),
            _ => None,
        },
        None => None,
    }
}

/// `<lhs><op><rhs>` over argument names.
pub open spec fn parse_binary_args(e: Seq<char>, op: Seq<char>, names: Seq<Seq<char>>) -> Option<Option<(int, int)>> {
    match split_once(e, op) {
        Some((l, r)) => match (arg_index(trim(l), names), arg_index(trim(r), names)) {
            (Some(a), Some(b)) => Some(Some((a, b))),
            _ => Some(None),
        },
        None => None,
    }
}

/// The expression of `return <expression>;`, whitespace trimmed.
pub open spec fn body_expression(body: Seq<char>) -> Option<Seq<char>> {
    match strip_prefix(trim(body), "return "@) {
        Some(a) => match strip_suffix(a, ";"@) {
            Some(b) => Some(trim(b)),
            None => None,
        },
        None => None,
    }
}

/// The index variant `f` applied to the argument named `name`, if any.
pub open spec fn unary_body(name: Seq<char>, names: Seq<Seq<char>>, f: spec_fn(usize) -> Body) -> Option<Body> {
    match arg_index(name, names) {
        Some(i) => Some(f(i as usize)),
        None => None,
    }
}

/// Bodies starting with `!`: `!a.equals(b)` (arguments or operands) or `!a`.
pub open spec fn parse_negation(rest: Seq<char>, raw: Seq<char>, names: Seq<Seq<char>>) -> Option<Body> {
    match parse_method_call(trim(rest), ".equals("@, names) {
        Some((l, r)) => Some(JavaCompatUdfBody::Compare(JavaCompatComparison::Ne, l as usize, r as usize)),
        None => {
            let fallback = unary_body(trim(rest), names, |i: usize| JavaCompatUdfBody::Not(i));
            match strip_prefix(raw, "!"@) {
                Some(rb) => match parse_method_operands(trim(rb), ".equals("@, names) {
                    Some((l, r)) => Some(JavaCompatUdfBody::CompareOperands(JavaCompatComparison::Ne, l, r)),
                    None => fallback,
                },
                None => fallback,
            }
        },
    }
}

/// Binary text methods: `contains`, `startsWith`, `endsWith`, `indexOf`, `lastIndexOf`.
pub open spec fn parse_text_methods(e: Seq<char>, raw: Seq<char>, names: Seq<Seq<char>>) -> Option<Option<Body>> {
    if let Some((l, r)) = parse_method_call(e, ".contains("@, names) {
        Some(Some(JavaCompatUdfBody::Contains(l as usize, r as usize)))
    } else if let Some((l, r)) = parse_method_operands(raw, ".contains("@, names) {
        Some(Some(JavaCompatUdfBody::ContainsOperands(l, r)))
    } else if let Some((l, r)) = parse_method_call(e, ".startswith("@, names) {
        Some(Some(JavaCompatUdfBody::StartsWith(l as usize, r as usize)))
    } else if let Some((l, r)) = parse_method_operands(raw, ".startswith("@, names) {
        Some(Some(JavaCompatUdfBody::StartsWithOperands(l, r)))
    } else if let Some((l, r)) = parse_method_call(e, ".endswith("@, names) {
        Some(Some(JavaCompatUdfBody::EndsWith(l as usize, r as usize)))
    } else if let Some((l, r)) = parse_method_operands(raw, ".endswith("@, names) {
        Some(Some(JavaCompatUdfBody::EndsWithOperands(l, r)))
    } else if let Some((v, b, end)) = parse_substring_call(e, names) {
        Some(Some(match end {
            Some(x) => JavaCompatUdfBody::SubstringRange(v as usize, b as usize, x as usize),
            None => JavaCompatUdfBody::Substring(v as usize, b as usize),
        }))
    } else if let Some((v, b, end)) = parse_substring_operands(raw, names) {
        Some(Some(match end {
            Some(x) => JavaCompatUdfBody::SubstringRangeOperands(v, b, x),
            None => JavaCompatUdfBody::SubstringOperands(v, b),
        }))
    } else if let Some((l, r)) = parse_method_call(e, ".indexof("@, names) {
        Some(Some(JavaCompatUdfBody::IndexOf(l as usize, r as usize)))
    } else if let Some((l, r)) = parse_method_operands(raw, ".indexof("@, names) {
        Some(Some(JavaCompatUdfBody::IndexOfOperands(l, r)))
    } else if let Some((l, r)) = parse_method_call(e, ".lastindexof("@, names) {
        Some(Some(JavaCompatUdfBody::LastIndexOf(l as usize, r as usize)))
    } else if let Some((l, r)) = parse_method_operands(raw, ".lastindexof("@, names) {
        Some(Some(JavaCompatUdfBody::LastIndexOfOperands(l, r)))
    } else if let Some((v, t, r)) = parse_replace_call(e, names) {
        Some(Some(JavaCompatUdfBody::Replace(v as usize, t as usize, r as usize)))
    } else if let Some((v, t, r)) = parse_replace_operands(raw, names) {
        Some(Some(JavaCompatUdfBody::ReplaceOperands(v, t, r)))
    } else {
        None
    }
}

/// The comparison operators, in the order they are tried.
pub open spec fn comparison_ops() -> Seq<(Seq<char>, JavaCompatComparison)> {
    seq![(">="@, JavaCompatComparison::Gte), ("<="@, JavaCompatComparison::Lte),
        ("=="@, JavaCompatComparison::Eq), ("!="@, JavaCompatComparison::Ne),
        (">"@, JavaCompatComparison::Gt), ("<"@, JavaCompatComparison::Lt)]
}

/// The first comparison operator from position `k` on that occurs in `e`, and the body it gives.
pub open spec fn parse_comparison_from(e: Seq<char>, raw: Seq<char>, names: Seq<Seq<char>>, k: int) -> Option<Option<Body>>
    decreases 6 - k,
{
    if k < 0 || k >= 6 {
        None
    } else {
        let (op, comparison) = comparison_ops()[k];
        match parse_binary_args(e, op, names) {
            Some(Some((l, r))) => Some(Some(JavaCompatUdfBody::Compare(comparison, l as usize, r as usize))),
            Some(None) => match parse_binary_operands(raw, op, names) {
                Some((l, r)) => Some(Some(JavaCompatUdfBody::CompareOperands(comparison, l, r))),
                None => Some(None),
            },
            None => parse_comparison_from(e, raw, names, k + 1),
        }
    }
}

/// The arithmetic operators, in the order they are tried.
pub open spec fn arith_ops() -> Seq<char> {
    seq!['+', '-', '*', '/', '%']
}

/// The body of arithmetic operator number `k` over two arguments or two operands.
pub open spec fn arith_body(k: int, l: usize, r: usize) -> Body {
    if k == 0 { JavaCompatUdfBody::Add(l, r) }
    else if k == 1 { JavaCompatUdfBody::Subtract(l, r) }
    else if k == 2 { JavaCompatUdfBody::Multiply(l, r) }
    else if k == 3 { JavaCompatUdfBody::Divide(l, r) }
    else { JavaCompatUdfBody::Remainder(l, r) }
}

/// The operand form of arithmetic operator number `k`.
pub open spec fn arith_operands_body(k: int, l: Operand, r: Operand) -> Body {
    if k == 0 { JavaCompatUdfBody::AddOperands(l, r) }
    else if k == 1 { JavaCompatUdfBody::SubtractOperands(l, r) }
    else if k == 2 { JavaCompatUdfBody::MultiplyOperands(l, r) }
    else if k == 3 { JavaCompatUdfBody::DivideOperands(l, r) }
    else { JavaCompatUdfBody::RemainderOperands(l, r) }
}

/// The first arithmetic operator from position `k` on that occurs in `e`, and the body it gives.
pub open spec fn parse_arith_from(e: Seq<char>, raw: Seq<char>, names: Seq<Seq<char>>, k: int) -> Option<Option<Body>>
    decreases 5 - k,
{
    if k < 0 || k >= 5 {
        None
    } else {
        let op = seq![arith_ops()[k]];
        match parse_binary_args(e, op, names) {
            Some(Some((l, r))) => Some(Some(arith_body(k, l as usize, r as usize))),
            Some(None) => match parse_binary_operands(raw, op, names) {
                Some((l, r)) => Some(Some(arith_operands_body(k, l, r))),
                None => Some(None),
            },
            None => parse_arith_from(e, raw, names, k + 1),
        }
    }
}

/// Logical, comparison, negation, arithmetic and case forms, then a bare argument.
pub open spec fn parse_operators(e: Seq<char>, raw: Seq<char>, names: Seq<Seq<char>>) -> Option<Body> {
    if let Some(x) = parse_binary_args(e, "&&"@, names) {
        match x {
            Some((l, r)) => Some(JavaCompatUdfBody::And(l as usize, r as usize)),
            None => None,
        }
    } else if let Some(x) = parse_binary_args(e, "||"@, names) {
        match x {
            Some((l, r)) => Some(JavaCompatUdfBody::Or(l as usize, r as usize)),
            None => None,
        }
    } else if let Some(x) = parse_comparison_from(e, raw, names, 0) {
        x
    } else if let Some(a) = strip_prefix(e, "-"@) {
        unary_body(trim(a), names, |i: usize| JavaCompatUdfBody::Negate(i))
    } else if let Some(x) = parse_arith_from(e, raw, names, 0) {
        x
    } else if let Some(a) = strip_suffix(e, ".tolowercase()"@) {
        unary_body(trim(a), names, |i: usize| JavaCompatUdfBody::Lower(i))
    } else if let Some(a) = strip_suffix(e, ".touppercase()"@) {
        unary_body(trim(a), names, |i: usize| JavaCompatUdfBody::Upper(i))
    } else {
        unary_body(e, names, |i: usize| JavaCompatUdfBody::Identity(i))
    }
}

/// The body recognised from the lower-cased expression `e` and its original `raw` text.
pub open spec fn parse_expression(e: Seq<char>, raw: Seq<char>, names: Seq<Seq<char>>) -> Option<Body> {
    if let Some(rest) = strip_prefix(e, "!"@) {
        parse_negation(rest, raw, names)
    } else if let Some((l, r)) = parse_method_call(e, ".equals("@, names) {
        Some(JavaCompatUdfBody::Compare(JavaCompatComparison::Eq, l as usize, r as usize))
    } else if let Some((l, r)) = parse_method_operands(raw, ".equals("@, names) {
        Some(JavaCompatUdfBody::CompareOperands(JavaCompatComparison::Eq, l, r))
    } else if let Some(a) = strip_suffix(e, ".length()"@) {
        unary_body(trim(a), names, |i: usize| JavaCompatUdfBody::Length(i))
    } else if let Some(a) = strip_suffix(e, ".trim()"@) {
        unary_body(trim(a), names, |i: usize| JavaCompatUdfBody::Trim(i))
    } else if let Some(a) = strip_suffix(e, ".isempty()"@) {
        unary_body(trim(a), names, |i: usize| JavaCompatUdfBody::IsEmpty(i))
    } else if let Some(x) = parse_text_methods(e, raw, names) {
        x
    } else {
        parse_operators(e, raw, names)
    }
}

/// The body recognised from the source text of a function with the given argument names.
pub open spec fn parse_java_body(body: Seq<char>, names: Seq<Seq<char>>) -> Option<Body> {
    match body_expression(body) {
        Some(raw) => parse_expression(lower(raw), raw, names),
        None => None,
    }
}

} // verus!

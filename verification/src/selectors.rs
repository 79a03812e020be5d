//! The selectors of a `SELECT` clause: the names their result columns get
//! and how aggregate and function selectors are recognised.
use vstd::prelude::*;
use crate::aggregates::{aggregate_output_type, aggregate_type, builtin_aggregate, count_rows, is_aggregate_name,
    is_builtin_aggregate_name, is_count_rows_name, is_count_rows_selector_name, lowered};
use crate::chars::{eq_ignore_case, eq_ignore_case_exec, lower};
use crate::ddl::{join, push_joined};
use crate::text::{chars_of, push_str, str_eq};
use crate::tuples::string_views;
use crate::types::{ColumnMetadata, CqlType};

verus! {

broadcast use vstd::seq_lib::group_seq_properties;

/// One selector of a `SELECT` clause.
#[derive(Debug)]
pub enum Selector {
    /// A column by name.
    Column(String),
    /// A selector renamed with `AS`.
    Alias { selector: Box<Selector>, alias: String },
    /// `COUNT(*)`.
    Count,
    /// A function applied to selectors.
    Function(String, Vec<Selector>),
    /// `CAST(selector AS type)`; `target` is the type cast to with its CQL
    /// name, where the written type name resolves to a known type.
    Cast { selector: Box<Selector>, target: Option<(CqlType, String)> },
    /// `WRITETIME(column)`, `TTL(column)` and the like: the function's name and the column.
    WritetimeOrTtl(String, String),
}

/// The name of a selector's result column.
pub open spec fn output_name(s: Selector) -> Seq<char>
    decreases s,
{
    match s {
        Selector::Column(n) => n@,
        Selector::Alias { alias, .. } => alias@,
        Selector::Count => "count"@,
        Selector::Function(name, args) => {
            if count_rows(name@) && args@.len() == 0 {
                "count"@
            } else if args@.len() == 0 {
                lower(name@) + "(*)"@
            } else {
                lower(name@) + "("@ + output_names(args@, args@.len() as int) + ")"@
            }
        },
        Selector::Cast { selector, target } => "cast("@ + output_name(*selector) + " as "@
            + (match target { Some(t) => t.1@, None => "unknown"@ }) + ")"@,
        Selector::WritetimeOrTtl(kind, col) => kind@ + "("@ + col@ + ")"@,
    }
}

/// The names of the first `n` selectors of `args`, joined with `", "`.
pub open spec fn output_names(args: Seq<Selector>, n: int) -> Seq<char>
    decreases args, n,
{
    if n <= 0 || n > args.len() {
        seq![]
    } else if n == 1 {
        output_name(args[0])
    } else {
        output_names(args, n - 1) + ", "@ + output_name(args[n - 1])
    }
}

/// The names of the first `n` selectors, one per selector.
pub open spec fn output_name_list(args: Seq<Selector>, n: int) -> Seq<Seq<char>> {
    Seq::new(n as nat, |i: int| output_name(args[i]))
}

proof fn lemma_output_names_join(args: Seq<Selector>, n: int)
    requires
        0 <= n <= args.len(),
    ensures
        output_names(args, n) == join(output_name_list(args, n), ", "@),
    decreases n,
{
    if n > 1 {
        lemma_output_names_join(args, n - 1);
        assert(output_name_list(args, n).drop_last() =~= output_name_list(args, n - 1));
    } else if n == 1 {
        assert(join(output_name_list(args, n), ", "@) == output_name_list(args, n)[0]);
    } else {
        assert(output_name_list(args, n).len() == 0);
    }
}

/// The name of a selector's result column: the column's name, the alias,
/// `count`, `name(args)` in lower case, `cast(.. as type)` or `writetime(col)`.
pub fn selector_output_name(selector: &Selector) -> (r: String)
    ensures
        r@ == output_name(*selector),
    decreases selector,
{
    match selector {
        Selector::Column(name) => name.clone(),
        Selector::Alias { alias, .. } => alias.clone(),
        Selector::Count => {
            let mut out = String::new();
            push_str(&mut out, "count");
            out
        },
        Selector::Function(name, args) => {
            let mut out = String::new();
            if is_count_rows_name(name.as_str()) && args.len() == 0 {
                push_str(&mut out, "count");
                return out;
            }
            let l = lowered(name.as_str());
            push_str(&mut out, l.as_str());
            if args.len() == 0 {
                push_str(&mut out, "(*)");
                assert(out@ =~= lower(name@) + "(*)"@);
                return out;
            }
            let mut names: Vec<String> = Vec::new();
            let mut i: usize = 0;
            while i < args.len()
                invariant
                    i <= args@.len(),
                    *selector is Function,
                    (*selector)->Function_1 == *args,
                    names@.len() == i,
                    forall|j: int| 0 <= j < i ==> (#[trigger] names@[j])@ == output_name(args@[j]),
                decreases args.len() - i,
            {
                proof {
                    let ghost v: Vec<Selector> = (*selector)->Function_1;
                    assert(v == *args);
                    assert(decreases_to!(*selector => (*selector)->Function_1));
                    assert(decreases_to!(v => v@));
                    assert(decreases_to!(v@ => v@[i as int]));
                }
                let n = selector_output_name(&args[i]);
                names.push(n);
                i = i + 1;
            }
            let ghost start = out@;
            push_str(&mut out, "(");
            push_joined(&mut out, names.as_slice(), ", ");
            push_str(&mut out, ")");
            proof {
                assert(string_views(names@) =~= output_name_list(args@, args@.len() as int));
                lemma_output_names_join(args@, args@.len() as int);
            }
            assert(out@ =~= lower(name@) + "("@ + output_names(args@, args@.len() as int) + ")"@);
            out
        },
        Selector::Cast { selector: inner, target } => {
            let mut out = String::new();
            push_str(&mut out, "cast(");
            let n = selector_output_name(inner);
            push_str(&mut out, n.as_str());
            push_str(&mut out, " as ");
            match target {
                Some(t) => push_str(&mut out, t.1.as_str()),
                None => push_str(&mut out, "unknown"),
            }
            push_str(&mut out, ")");
            out
        },
        Selector::WritetimeOrTtl(kind, col) => {
            let mut out = String::new();
            push_str(&mut out, kind.as_str());
            push_str(&mut out, "(");
            push_str(&mut out, col.as_str());
            push_str(&mut out, ")");
            out
        },
    }
}

/// The selector under any `AS` aliases.
pub open spec fn unaliased(s: Selector) -> Selector
    decreases s,
{
    match s {
        Selector::Alias { selector, .. } => unaliased(*selector),
        _ => s,
    }
}

/// The aggregate a selector computes, under any aliases: `count` for
/// `COUNT(*)` and the row-count functions, else a built-in aggregate's name
/// in lower case.
pub open spec fn aggregate_name(s: Selector) -> Option<Seq<char>> {
    match unaliased(s) {
        Selector::Count => Some("count"@),
        Selector::Function(name, _) => {
            if count_rows(name@) {
                Some("count"@)
            } else if builtin_aggregate(name@) {
                Some(lower(name@))
            } else {
                None
            }
        },
        _ => None,
    }
}

/// The aggregate a selector computes, if it is an aggregate selector.
pub fn aggregate_selector_name(selector: &Selector) -> (r: Option<String>)
    ensures
        match r {
            Some(n) => aggregate_name(*selector) == Some(n@),
            None => aggregate_name(*selector) is None,
        },
    decreases selector,
{
    match selector {
        Selector::Count => {
            let mut out = String::new();
            push_str(&mut out, "count");
            Some(out)
        },
        Selector::Function(name, _) => {
            if is_count_rows_name(name.as_str()) {
                let mut out = String::new();
                push_str(&mut out, "count");
                Some(out)
            } else if is_builtin_aggregate_name(name.as_str()) {
                Some(lowered(name.as_str()))
            } else {
                None
            }
        },
        Selector::Alias { selector: inner, .. } => aggregate_selector_name(inner),
        _ => None,
    }
}

/// Whether a `count` selector counts the non-null values of its argument
/// (`count(col)`) rather than rows.
pub open spec fn counts_non_null(s: Selector) -> bool {
    match unaliased(s) {
        Selector::Function(name, args) => eq_ignore_case(name@, "count"@) && args@.len() > 0,
        _ => false,
    }
}

/// Whether a `count` selector counts the non-null values of its argument.
pub fn count_selector_counts_non_null(selector: &Selector) -> (r: bool)
    ensures
        r == counts_non_null(*selector),
    decreases selector,
{
    match selector {
        Selector::Function(name, args) => {
            let n = chars_of(name.as_str());
            let c = chars_of("count");
            proof {
                reveal_strlit("count");
            }
            eq_ignore_case_exec(&n, &c) && args.len() > 0
        },
        Selector::Alias { selector: inner, .. } => count_selector_counts_non_null(inner),
        _ => false,
    }
}

/// Whether a selector is `COUNT(*)`, under any aliases.
pub fn is_count_selector(selector: &Selector) -> (r: bool)
    ensures
        r == (unaliased(*selector) is Count),
    decreases selector,
{
    match selector {
        Selector::Count => true,
        Selector::Alias { selector: inner, .. } => is_count_selector(inner),
        _ => false,
    }
}

/// The function a selector applies, with its arguments, under any aliases.
pub open spec fn function_parts(s: Selector) -> Option<(Seq<char>, Seq<Selector>)> {
    match unaliased(s) {
        Selector::Function(name, args) => Some((name@, args@)),
        _ => None,
    }
}

/// The name and arguments of a user-defined aggregate selector.
pub fn user_aggregate_selector_parts(selector: &Selector) -> (r: Option<(&str, &[Selector])>)
    ensures
        match r {
            Some(p) => function_parts(*selector) == Some((p.0@, p.1@)),
            None => function_parts(*selector) is None,
        },
    decreases selector,
{
    match selector {
        Selector::Function(name, args) => Some((name.as_str(), args.as_slice())),
        Selector::Alias { selector: inner, .. } => user_aggregate_selector_parts(inner),
        _ => None,
    }
}

/// The name and arguments of a user-defined function selector.
pub fn user_function_selector_parts(selector: &Selector) -> (r: Option<(&str, &[Selector])>)
    ensures
        match r {
            Some(p) => function_parts(*selector) == Some((p.0@, p.1@)),
            None => function_parts(*selector) is None,
        },
    decreases selector,
{
    match selector {
        Selector::Function(name, args) => Some((name.as_str(), args.as_slice())),
        Selector::Alias { selector: inner, .. } => user_function_selector_parts(inner),
        _ => None,
    }
}

/// The type of the first column of `cols` named `name`.
pub open spec fn column_type_of(cols: Seq<ColumnMetadata>, name: Seq<char>) -> Option<CqlType>
    decreases cols.len(),
{
    if cols.len() == 0 {
        None
    } else if cols[0].name@ == name {
        Some(cols[0].column_type)
    } else {
        column_type_of(cols.drop_first(), name)
    }
}

/// The type of a selector's values, where it can be told without resolving
/// functions: a column's type, `bigint` for counts and write times, `int`
/// for TTLs, the target of a cast, an aggregate's result type.
pub open spec fn result_type(s: Selector, cols: Seq<ColumnMetadata>) -> Option<CqlType>
    decreases s,
{
    match s {
        Selector::Column(name) => column_type_of(cols, name@),
        Selector::Alias { selector, .. } => result_type(*selector, cols),
        Selector::Count => Some(CqlType::Bigint),
        Selector::Cast { target, .. } => match target {
            Some(t) => Some(t.0),
            None => None,
        },
        Selector::WritetimeOrTtl(kind, _) => if eq_ignore_case(kind@, "ttl"@) {
            Some(CqlType::Int)
        } else {
            Some(CqlType::Bigint)
        },
        Selector::Function(name, args) => if eq_ignore_case(name@, "count"@) || count_rows(name@) {
            Some(CqlType::Bigint)
        } else if builtin_aggregate(name@) {
            Some(aggregate_type(name@, if args@.len() > 0 { result_type(args@[0], cols) } else { None }))
        } else {
            None
        },
    }
}

pub(crate) fn column_type_exec(cols: &[ColumnMetadata], name: &str) -> (r: Option<CqlType>)
    ensures
        r == column_type_of(cols@, name@),
{
    let mut i: usize = 0;
    assert(cols@.subrange(0, cols@.len() as int) =~= cols@);
    while i < cols.len()
        invariant
            i <= cols@.len(),
            column_type_of(cols@, name@) == column_type_of(cols@.subrange(i as int, cols@.len() as int), name@),
        decreases cols.len() - i,
    {
        assert(cols@.subrange(i as int, cols@.len() as int).drop_first() =~= cols@.subrange(i + 1, cols@.len() as int));
        if str_eq(cols[i].name.as_str(), name) {
            return Some(cols[i].column_type.duplicate());
        }
        i = i + 1;
    }
    None
}

/// The type of a selector's values, where it can be told without resolving functions.
pub fn selector_result_type(selector: &Selector, cols: &[ColumnMetadata]) -> (r: Option<CqlType>)
    ensures
        r == result_type(*selector, cols@),
    decreases selector,
{
    match selector {
        Selector::Column(name) => column_type_exec(cols, name.as_str()),
        Selector::Alias { selector: inner, .. } => selector_result_type(inner, cols),
        Selector::Count => Some(CqlType::Bigint),
        Selector::Cast { target, .. } => match target {
            Some(t) => Some(t.0.duplicate()),
            None => None,
        },
        Selector::WritetimeOrTtl(kind, _) => {
            let k = chars_of(kind.as_str());
            let ttl = chars_of("ttl");
            proof {
                reveal_strlit("ttl");
            }
            if eq_ignore_case_exec(&k, &ttl) {
                Some(CqlType::Int)
            } else {
                Some(CqlType::Bigint)
            }
        },
        Selector::Function(name, args) => {
            if is_count_rows_selector_name(name.as_str()) {
                Some(CqlType::Bigint)
            } else if is_aggregate_name(name.as_str()) {
                let arg_type = if args.len() > 0 {
                    proof {
                        let ghost v: Vec<Selector> = (*selector)->Function_1;
                        assert(decreases_to!(*selector => (*selector)->Function_1));
                        assert(decreases_to!(v => v@));
                        assert(decreases_to!(v@ => v@[0]));
                    }
                    selector_result_type(&args[0], cols)
                } else {
                    None
                };
                match &arg_type {
                    Some(t) => Some(aggregate_output_type(name.as_str(), Some(t))),
                    None => Some(aggregate_output_type(name.as_str(), None)),
                }
            } else {
                None
            }
        },
    }
}

} // verus!

//! The CQL column types the executor's helpers distinguish.
use vstd::prelude::*;
use crate::ddl::{join, push_joined};
use crate::text::{push_decimal_u64, push_str, nat_decimal};
use crate::tuples::string_views;

verus! {

/// A CQL data type. Collections carry whether they are frozen.
#[derive(Debug, PartialEq, Eq)]
pub enum CqlType {
    Ascii,
    Bigint,
    Blob,
    Boolean,
    Counter,
    Date,
    Decimal,
    Double,
    Duration,
    Float,
    Inet,
    Int,
    Smallint,
    Time,
    Timestamp,
    Timeuuid,
    Tinyint,
    Uuid,
    Varchar,
    Varint,
    ListOf(Box<CqlType>, bool),
    SetOf(Box<CqlType>, bool),
    MapOf(Box<CqlType>, Box<CqlType>, bool),
    Vector(Box<CqlType>, usize),
}

/// The byte width of a fixed-width type, if it has one.
pub open spec fn fixed_width(t: CqlType) -> Option<nat> {
    match t {
        CqlType::Boolean | CqlType::Tinyint => Some(1),
        CqlType::Smallint => Some(2),
        CqlType::Int | CqlType::Float | CqlType::Date => Some(4),
        CqlType::Bigint | CqlType::Counter | CqlType::Double | CqlType::Timestamp | CqlType::Time => Some(8),
        CqlType::Uuid | CqlType::Timeuuid => Some(16),
        _ => None,
    }
}

/// The byte width of a fixed-width type, if it has one.
pub fn fixed_width_cql_type(t: &CqlType) -> (r: Option<usize>)
    ensures
        match r { Some(w) => fixed_width(*t) == Some(w as nat), None => fixed_width(*t) is None },
{
    match t {
        CqlType::Boolean | CqlType::Tinyint => Some(1),
        CqlType::Smallint => Some(2),
        CqlType::Int | CqlType::Float | CqlType::Date => Some(4),
        CqlType::Bigint | CqlType::Counter | CqlType::Double | CqlType::Timestamp | CqlType::Time => Some(8),
        CqlType::Uuid | CqlType::Timeuuid => Some(16),
        _ => None,
    }
}

/// Whether a type holds whole numbers.
pub open spec fn integral(t: CqlType) -> bool {
    t is Tinyint || t is Smallint || t is Int || t is Bigint || t is Counter || t is Varint
}

/// Whether a type holds whole numbers.
pub fn is_integral_type(t: &CqlType) -> (r: bool)
    ensures
        r == integral(*t),
{
    match t {
        CqlType::Tinyint | CqlType::Smallint | CqlType::Int | CqlType::Bigint | CqlType::Counter | CqlType::Varint => true,
        _ => false,
    }
}

/// Whether a type holds text.
pub open spec fn textual(t: CqlType) -> bool {
    t is Ascii || t is Varchar
}

impl CqlType {
    /// A copy of the type.
    pub fn duplicate(&self) -> (r: CqlType)
        ensures
            r == *self,
        decreases self,
    {
        match self {
            CqlType::Ascii => CqlType::Ascii,
            CqlType::Bigint => CqlType::Bigint,
            CqlType::Blob => CqlType::Blob,
            CqlType::Boolean => CqlType::Boolean,
            CqlType::Counter => CqlType::Counter,
            CqlType::Date => CqlType::Date,
            CqlType::Decimal => CqlType::Decimal,
            CqlType::Double => CqlType::Double,
            CqlType::Duration => CqlType::Duration,
            CqlType::Float => CqlType::Float,
            CqlType::Inet => CqlType::Inet,
            CqlType::Int => CqlType::Int,
            CqlType::Smallint => CqlType::Smallint,
            CqlType::Time => CqlType::Time,
            CqlType::Timestamp => CqlType::Timestamp,
            CqlType::Timeuuid => CqlType::Timeuuid,
            CqlType::Tinyint => CqlType::Tinyint,
            CqlType::Uuid => CqlType::Uuid,
            CqlType::Varchar => CqlType::Varchar,
            CqlType::Varint => CqlType::Varint,
            CqlType::ListOf(inner, frozen) => CqlType::ListOf(Box::new((**inner).duplicate()), *frozen),
            CqlType::SetOf(inner, frozen) => CqlType::SetOf(Box::new((**inner).duplicate()), *frozen),
            CqlType::MapOf(k, v, frozen) => CqlType::MapOf(Box::new((**k).duplicate()), Box::new((**v).duplicate()), *frozen),
            CqlType::Vector(inner, n) => CqlType::Vector(Box::new((**inner).duplicate()), *n),
        }
    }
}

/// A column of a table: its name and type.
#[derive(Debug)]
pub struct ColumnMetadata {
    pub name: String,
    pub column_type: CqlType,
}

/// A type as a statement writes it, before it is resolved.
#[derive(Debug)]
pub enum CqlTypeName {
    Simple(String),
    ListOf(Box<CqlTypeName>),
    SetOf(Box<CqlTypeName>),
    MapOf(Box<CqlTypeName>, Box<CqlTypeName>),
    Tuple(Vec<CqlTypeName>),
    Frozen(Box<CqlTypeName>),
    Vector(Box<CqlTypeName>, usize),
}

/// The text of a type name: `list<..>`, `map<.., ..>`, `tuple<.., ..>`,
/// `frozen<..>`, `vector<.., n>` around the written simple names.
pub open spec fn type_name_text(t: CqlTypeName) -> Seq<char>
    decreases t,
{
    match t {
        CqlTypeName::Simple(n) => n@,
        CqlTypeName::ListOf(inner) => "list<"@ + type_name_text(*inner) + ">"@,
        CqlTypeName::SetOf(inner) => "set<"@ + type_name_text(*inner) + ">"@,
        CqlTypeName::MapOf(k, v) => "map<"@ + type_name_text(*k) + ", "@ + type_name_text(*v) + ">"@,
        CqlTypeName::Tuple(items) => "tuple<"@ + type_names_text(items@, items@.len() as int) + ">"@,
        CqlTypeName::Frozen(inner) => "frozen<"@ + type_name_text(*inner) + ">"@,
        CqlTypeName::Vector(inner, n) => "vector<"@ + type_name_text(*inner) + ", "@ + nat_decimal(n as nat) + ">"@,
    }
}

/// The texts of the first `n` type names, joined with `", "`.
pub open spec fn type_names_text(items: Seq<CqlTypeName>, n: int) -> Seq<char>
    decreases items, n,
{
    if n <= 0 || n > items.len() {
        seq![]
    } else if n == 1 {
        type_name_text(items[0])
    } else {
        type_names_text(items, n - 1) + ", "@ + type_name_text(items[n - 1])
    }
}

proof fn lemma_type_names_join(items: Seq<CqlTypeName>, n: int)
    requires
        0 <= n <= items.len(),
    ensures
        type_names_text(items, n) == join(Seq::new(n as nat, |i: int| type_name_text(items[i])), ", "@),
    decreases n,
{
    let parts = Seq::new(n as nat, |i: int| type_name_text(items[i]));
    if n > 1 {
        lemma_type_names_join(items, n - 1);
        assert(parts.drop_last() =~= Seq::new((n - 1) as nat, |i: int| type_name_text(items[i])));
    } else if n == 1 {
        assert(join(parts, ", "@) == parts[0]);
    } else {
        assert(parts.len() == 0);
    }
}

/// Renders a type name as CQL text.
pub fn render_ast_cql_type_name(cql_type: &CqlTypeName) -> (r: String)
    ensures
        r@ == type_name_text(*cql_type),
    decreases cql_type,
{
    let mut out = String::new();
    match cql_type {
        CqlTypeName::Simple(name) => {
            push_str(&mut out, name.as_str());
        },
        CqlTypeName::ListOf(inner) => {
            push_str(&mut out, "list<");
            let s = render_ast_cql_type_name(inner);
            push_str(&mut out, s.as_str());
            push_str(&mut out, ">");
        },
        CqlTypeName::SetOf(inner) => {
            push_str(&mut out, "set<");
            let s = render_ast_cql_type_name(inner);
            push_str(&mut out, s.as_str());
            push_str(&mut out, ">");
        },
        CqlTypeName::MapOf(k, v) => {
            push_str(&mut out, "map<");
            let ks = render_ast_cql_type_name(k);
            push_str(&mut out, ks.as_str());
            push_str(&mut out, ", ");
            let vs = render_ast_cql_type_name(v);
            push_str(&mut out, vs.as_str());
            push_str(&mut out, ">");
        },
        CqlTypeName::Tuple(items) => {
            let mut names: Vec<String> = Vec::new();
            let mut i: usize = 0;
            while i < items.len()
                invariant
                    i <= items@.len(),
                    *cql_type is Tuple,
                    (*cql_type)->Tuple_0 == *items,
                    names@.len() == i,
                    forall|j: int| 0 <= j < i ==> (#[trigger] names@[j])@ == type_name_text(items@[j]),
                decreases items.len() - i,
            {
                proof {
                    let ghost v: Vec<CqlTypeName> = (*cql_type)->Tuple_0;
                    assert(decreases_to!(*cql_type => (*cql_type)->Tuple_0));
                    assert(decreases_to!(v => v@));
                    assert(decreases_to!(v@ => v@[i as int]));
                }
                let n = render_ast_cql_type_name(&items[i]);
                names.push(n);
                i = i + 1;
            }
            push_str(&mut out, "tuple<");
            push_joined(&mut out, names.as_slice(), ", ");
            push_str(&mut out, ">");
            proof {
                assert(string_views(names@) =~= Seq::new(items@.len(), |i: int| type_name_text(items@[i])));
                lemma_type_names_join(items@, items@.len() as int);
            }
        },
        CqlTypeName::Frozen(inner) => {
            push_str(&mut out, "frozen<");
            let s = render_ast_cql_type_name(inner);
            push_str(&mut out, s.as_str());
            push_str(&mut out, ">");
        },
        CqlTypeName::Vector(inner, n) => {
            push_str(&mut out, "vector<");
            let s = render_ast_cql_type_name(inner);
            push_str(&mut out, s.as_str());
            push_str(&mut out, ", ");
            push_decimal_u64(&mut out, *n as u64);
            push_str(&mut out, ">");
        },
    }
    assert(out@ =~= type_name_text(*cql_type));
    out
}

} // verus!

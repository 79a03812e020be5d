//! Values passed to and returned from user-defined functions.
use vstd::prelude::*;
use crate::text::{push_str, push_decimal_i64, int_decimal};

verus! {

/// A CQL value as a user-defined function sees it.
#[derive(Debug, Clone, PartialEq)]
pub enum UdfValue {
    Null,
    Boolean(bool),
    Tinyint(i8),
    Smallint(i16),
    Int(i32),
    Long(i64),
    Counter(i64),
    Text(String),
    Blob(Vec<u8>),
}

/// The mathematical content of a [`UdfValue`].
pub enum UdfVal {
    Null,
    Boolean(bool),
    Tinyint(i8),
    Smallint(i16),
    Int(i32),
    Long(i64),
    Counter(i64),
    Text(Seq<char>),
    Blob(Seq<u8>),
}

impl View for UdfValue {
    type V = UdfVal;

    open spec fn view(&self) -> UdfVal {
        match self {
            UdfValue::Null => UdfVal::Null,
            UdfValue::Boolean(b) => UdfVal::Boolean(*b),
            UdfValue::Tinyint(v) => UdfVal::Tinyint(*v),
            UdfValue::Smallint(v) => UdfVal::Smallint(*v),
            UdfValue::Int(v) => UdfVal::Int(*v),
            UdfValue::Long(v) => UdfVal::Long(*v),
            UdfValue::Counter(v) => UdfVal::Counter(*v),
            UdfValue::Text(s) => UdfVal::Text(s@),
            UdfValue::Blob(b) => UdfVal::Blob(b@),
        }
    }
}

/// The views of a sequence of values.
pub open spec fn udf_views(args: Seq<UdfValue>) -> Seq<UdfVal> {
    args.map_values(|v: UdfValue| v@)
}

/// What `{:?}` writes for a string: the string quoted and escaped.
pub uninterp spec fn str_debug(s: Seq<char>) -> Seq<char>;

/// The quoted, escaped form of `s`, as `<str as Debug>::fmt` writes it.
#[verifier::external_body]
fn debug_str(s: &str) -> (r: String)
    ensures
        r@ == str_debug(s@),
{
    format!("{:?}", s)
}

/// `[b0, b1, ...]`, the bytes in decimal separated by `", "`.
pub open spec fn bytes_debug(b: Seq<u8>) -> Seq<char>
    decreases b.len(),
{
    if b.len() == 0 {
        "[]"@
    } else {
        bytes_debug_items(b) + "]"@
    }
}

/// `[b0, b1, ..., bn` without the closing bracket.
pub open spec fn bytes_debug_items(b: Seq<u8>) -> Seq<char>
    decreases b.len(),
{
    if b.len() == 0 {
        "["@
    } else if b.len() == 1 {
        "["@ + int_decimal(b[0] as int)
    } else {
        bytes_debug_items(b.drop_last()) + ", "@ + int_decimal(b.last() as int)
    }
}

/// How a value is shown in error messages: the variant name with its payload,
/// as the derived `Debug` shows it.
pub open spec fn udf_debug(v: UdfVal) -> Seq<char> {
    match v {
        UdfVal::Null => "Null"@,
        UdfVal::Boolean(b) => "Boolean("@ + (if b { "true"@ } else { "false"@ }) + ")"@,
        UdfVal::Tinyint(x) => "Tinyint("@ + int_decimal(x as int) + ")"@,
        UdfVal::Smallint(x) => "Smallint("@ + int_decimal(x as int) + ")"@,
        UdfVal::Int(x) => "Int("@ + int_decimal(x as int) + ")"@,
        UdfVal::Long(x) => "Long("@ + int_decimal(x as int) + ")"@,
        UdfVal::Counter(x) => "Counter("@ + int_decimal(x as int) + ")"@,
        UdfVal::Text(s) => "Text("@ + str_debug(s) + ")"@,
        UdfVal::Blob(b) => "Blob("@ + bytes_debug(b) + ")"@,
    }
}

fn push_bytes_debug(out: &mut String, b: &Vec<u8>)
    ensures
        final(out)@ == old(out)@ + bytes_debug(b@),
{
    if b.len() == 0 {
        push_str(out, "[]");
        return;
    }
    push_str(out, "[");
    push_decimal_i64(out, b[0] as i64);
    let ghost start = old(out)@;
    assert(out@ =~= start + bytes_debug_items(b@.subrange(0, 1)));
    let mut i: usize = 1;
    while i < b.len()
        invariant
            1 <= i <= b@.len(),
            out@ == start + bytes_debug_items(b@.subrange(0, i as int)),
        decreases b.len() - i,
    {
        push_str(out, ", ");
        push_decimal_i64(out, b[i] as i64);
        assert(b@.subrange(0, i + 1).drop_last() =~= b@.subrange(0, i as int));
        i = i + 1;
        assert(out@ =~= start + bytes_debug_items(b@.subrange(0, i as int)));
    }
    assert(b@.subrange(0, b@.len() as int) =~= b@);
    push_str(out, "]");
    assert(out@ =~= start + bytes_debug(b@));
}

impl UdfValue {
    /// The value as error messages show it.
    pub fn describe(&self) -> (r: String)
        ensures
            r@ == udf_debug(self@),
    {
        let mut out = String::new();
        match self {
            UdfValue::Null => push_str(&mut out, "Null"),
            UdfValue::Boolean(b) => {
                push_str(&mut out, "Boolean(");
                push_str(&mut out, if *b { "true" } else { "false" });
                push_str(&mut out, ")");
            },
            UdfValue::Tinyint(x) => {
                push_str(&mut out, "Tinyint(");
                push_decimal_i64(&mut out, *x as i64);
                push_str(&mut out, ")");
            },
            UdfValue::Smallint(x) => {
                push_str(&mut out, "Smallint(");
                push_decimal_i64(&mut out, *x as i64);
                push_str(&mut out, ")");
            },
            UdfValue::Int(x) => {
                push_str(&mut out, "Int(");
                push_decimal_i64(&mut out, *x as i64);
                push_str(&mut out, ")");
            },
            UdfValue::Long(x) => {
                push_str(&mut out, "Long(");
                push_decimal_i64(&mut out, *x);
                push_str(&mut out, ")");
            },
            UdfValue::Counter(x) => {
                push_str(&mut out, "Counter(");
                push_decimal_i64(&mut out, *x);
                push_str(&mut out, ")");
            },
            UdfValue::Text(s) => {
                push_str(&mut out, "Text(");
                let d = debug_str(s.as_str());
                push_str(&mut out, d.as_str());
                push_str(&mut out, ")");
            },
            UdfValue::Blob(b) => {
                push_str(&mut out, "Blob(");
                push_bytes_debug(&mut out, b);
                push_str(&mut out, ")");
            },
        }
        assert(out@ =~= udf_debug(self@));
        out
    }

    /// A copy of the value.
    pub fn duplicate(&self) -> (r: UdfValue)
        ensures
            r@ == self@,
    {
        match self {
            UdfValue::Null => UdfValue::Null,
            UdfValue::Boolean(b) => UdfValue::Boolean(*b),
            UdfValue::Tinyint(x) => UdfValue::Tinyint(*x),
            UdfValue::Smallint(x) => UdfValue::Smallint(*x),
            UdfValue::Int(x) => UdfValue::Int(*x),
            UdfValue::Long(x) => UdfValue::Long(*x),
            UdfValue::Counter(x) => UdfValue::Counter(*x),
            UdfValue::Text(s) => UdfValue::Text(s.clone()),
            UdfValue::Blob(b) => UdfValue::Blob(b.clone()),
        }
    }
}

} // verus!

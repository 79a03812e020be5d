//! Dynamic data masking: the argument types of the masking functions, the
//! bytes of the arguments stored with a mask, and the masked columns a
//! query restricts.
use vstd::prelude::*;
use crate::aggregates::lowered;
use crate::bytes::{blob_literal, pair_walk, without_dashes, parse_blob_metadata_arg, parse_uuid_bytes};
use crate::chars::{eq_ignore_case, eq_ignore_case_exec, lower, parse_int, parse_i64_exec};
use crate::constraints::{text_less, text_less_exec, lemma_text_asymmetric, lemma_text_total, lemma_text_transitive};
use crate::numbers::{be_bytes, be_bytes_exec, be_bytes_wrapping, pow256};
use crate::relations::bytes_copy;
use crate::ddl::{join, push_joined};
use crate::error::ExecutorError;
use crate::text::{chars_of, push_str, str_eq};
use crate::tuples::string_views;
use crate::types::CqlType;
use vstd::utf8::encode_utf8;

verus! {

broadcast use vstd::seq_lib::group_seq_properties;

// ─── argument types ─────────────────────────────────────────────────────

/// The argument types of the masking function `function_name` on a column
/// of type `column_type` with `n` arguments besides the column: the
/// column's type first, then the function's own; `None` for an unknown
/// function or a wrong number of arguments.
pub open spec fn mask_arg_types(function_name: Seq<char>, column_type: CqlType, n: nat) -> Option<Seq<CqlType>> {
    let f = lower(function_name);
    if (f == "mask_default"@ || f == "mask_null"@) && n == 0 {
        Some(seq![column_type])
    } else if f == "mask_hash"@ && n == 0 {
        Some(seq![column_type])
    } else if f == "mask_hash"@ && n == 1 {
        Some(seq![column_type, CqlType::Varchar])
    } else if (f == "mask_inner"@ || f == "mask_outer"@) && n == 2 {
        Some(seq![column_type, CqlType::Int, CqlType::Int])
    } else if (f == "mask_inner"@ || f == "mask_outer"@) && n == 3 {
        Some(seq![column_type, CqlType::Int, CqlType::Int, CqlType::Varchar])
    } else if f == "mask_replace"@ && n == 1 {
        Some(seq![column_type, column_type])
    } else {
        None
    }
}

/// The argument types of a masking function applied to a column with the
/// extra arguments `args`.
pub fn mask_function_arg_types(function_name: &str, column_type: &CqlType, args: &[String]) -> (r: Option<Vec<CqlType>>)
    ensures
        match r {
            Some(v) => mask_arg_types(function_name@, *column_type, args@.len()) == Some(v@),
            None => mask_arg_types(function_name@, *column_type, args@.len()) is None,
        },
{
    let f = lowered(function_name);
    let f = f.as_str();
    let n = args.len();
    let mut arg_types: Vec<CqlType> = Vec::new();
    arg_types.push(column_type.duplicate());
    if (str_eq(f, "mask_default") || str_eq(f, "mask_null")) && n == 0 {
        assert(arg_types@ =~= seq![*column_type]);
        Some(arg_types)
    } else if str_eq(f, "mask_hash") && n == 0 {
        assert(arg_types@ =~= seq![*column_type]);
        Some(arg_types)
    } else if str_eq(f, "mask_hash") && n == 1 {
        arg_types.push(CqlType::Varchar);
        assert(arg_types@ =~= seq![*column_type, CqlType::Varchar]);
        Some(arg_types)
    } else if (str_eq(f, "mask_inner") || str_eq(f, "mask_outer")) && (n == 2 || n == 3) {
        arg_types.push(CqlType::Int);
        arg_types.push(CqlType::Int);
        if n == 3 {
            arg_types.push(CqlType::Varchar);
            assert(arg_types@ =~= seq![*column_type, CqlType::Int, CqlType::Int, CqlType::Varchar]);
        } else {
            assert(arg_types@ =~= seq![*column_type, CqlType::Int, CqlType::Int]);
        }
        Some(arg_types)
    } else if str_eq(f, "mask_replace") && n == 1 {
        arg_types.push(column_type.duplicate());
        assert(arg_types@ =~= seq![*column_type, *column_type]);
        Some(arg_types)
    } else {
        None
    }
}

// ─── stored arguments ───────────────────────────────────────────────────

/// The value `num_bigint::BigInt::from_str` gives for a text, as the
/// minimal big-endian two's-complement bytes (`to_signed_bytes_be`), or
/// `None` where it refuses the text.
pub uninterp spec fn bigint_decimal_bytes(s: Seq<char>) -> Option<Seq<u8>>;

/// Parses a decimal integer of any size with `BigInt::from_str` and gives
/// its minimal signed big-endian bytes.
#[verifier::external_body]
fn parse_varint_bytes(s: &str) -> (r: Option<Vec<u8>>)
    ensures
        match r {
            Some(b) => bigint_decimal_bytes(s@) == Some(b@),
            None => bigint_decimal_bytes(s@) is None,
        },
{
    s.parse::<num_bigint::BigInt>().ok().map(|v| v.to_signed_bytes_be())
}

/// The integer a signed `from_str` of `bytes` bytes reads, in range.
pub open spec fn parse_signed(arg: Seq<char>, bytes: nat) -> Option<int> {
    match parse_int(arg) {
        Some(v) => if -(pow256(bytes) as int) / 2 <= v < (pow256(bytes) as int) / 2 { Some(v) } else { None },
        None => None,
    }
}

/// The integer `u32::from_str` reads: no sign but `+`, in range.
pub open spec fn parse_u32(arg: Seq<char>) -> Option<int> {
    if arg.len() > 0 && arg[0] == '-' {
        None
    } else {
        match parse_int(arg) {
            Some(v) => if 0 <= v <= u32::MAX { Some(v) } else { None },
            None => None,
        }
    }
}

/// The bytes of an integer argument of `bytes` bytes.
pub open spec fn signed_arg(arg: Seq<char>, bytes: nat) -> Option<Option<Seq<u8>>> {
    match parse_signed(arg, bytes) {
        Some(v) => Some(Some(be_bytes(v, bytes))),
        None => None,
    }
}

/// What a mask argument stored as text means for an argument of type `t`:
/// `Some(None)` for `null` (in any letter case), `Some(Some(bytes))` for
/// its encoding, `None` where the text is not a value of the type.
pub open spec fn metadata_arg(arg: Seq<char>, t: CqlType) -> Option<Option<Seq<u8>>> {
    if eq_ignore_case(arg, "null"@) {
        Some(None)
    } else {
        match t {
            CqlType::Ascii | CqlType::Varchar => Some(Some(encode_utf8(arg))),
            CqlType::Boolean => if arg == "true"@ {
                Some(Some(seq![1u8]))
            } else if arg == "false"@ {
                Some(Some(seq![0u8]))
            } else {
                None
            },
            CqlType::Tinyint => signed_arg(arg, 1),
            CqlType::Smallint => signed_arg(arg, 2),
            CqlType::Int => signed_arg(arg, 4),
            CqlType::Bigint | CqlType::Counter | CqlType::Timestamp | CqlType::Time => signed_arg(arg, 8),
            CqlType::Varint => match bigint_decimal_bytes(arg) {
                Some(b) => Some(Some(b)),
                None => None,
            },
            CqlType::Blob => match blob_literal(arg) {
                Some(Some(b)) => Some(Some(b)),
                _ => None,
            },
            CqlType::Uuid | CqlType::Timeuuid => match pair_walk(encode_utf8(without_dashes(arg)), 0) {
                Some(Some(b)) => Some(Some(b)),
                _ => None,
            },
            CqlType::Date => match parse_u32(arg) {
                Some(v) => Some(Some(be_bytes(v, 4))),
                None => None,
            },
            _ => None,
        }
    }
}

/// Whether a type's mask arguments are floating-point or decimal numbers.
pub open spec fn fractional_arg(t: CqlType) -> bool {
    t is Float || t is Double || t is Decimal
}

fn signed_arg_exec(arg: &[char], bytes: usize) -> (r: Option<Option<Vec<u8>>>)
    requires
        bytes == 1 || bytes == 2 || bytes == 4 || bytes == 8,
    ensures
        match signed_arg(arg@, bytes as nat) {
            Some(Some(b)) => r matches Some(Some(v)) && v@ == b,
            Some(None) => r matches Some(None),
            None => r is None,
        },
{
    let (lo, hi): (i64, i64) = if bytes == 1 {
        (-128, 127)
    } else if bytes == 2 {
        (-32768, 32767)
    } else if bytes == 4 {
        (-2147483648, 2147483647)
    } else {
        (i64::MIN, i64::MAX)
    };
    proof {
        reveal_with_fuel(pow256, 9);
        assert(lo == -(pow256(bytes as nat) as int) / 2 && hi == (pow256(bytes as nat) as int) / 2 - 1);
    }
    match parse_i64_exec(arg) {
        Some(v) => {
            if lo <= v && v <= hi {
                Some(Some(be_bytes_exec(v as i128, bytes)))
            } else {
                None
            }
        },
        None => None,
    }
}

/// The bytes of a mask argument stored as text, for an argument of type `cql_type`.
pub fn mask_metadata_arg_to_bytes(arg: &str, cql_type: &CqlType) -> (r: Option<Option<Vec<u8>>>)
    requires
        !fractional_arg(*cql_type),
        cql_type is Blob ==> blob_literal(arg@) is Some,
        (cql_type is Uuid || cql_type is Timeuuid) ==> pair_walk(encode_utf8(without_dashes(arg@)), 0) is Some,
    ensures
        match metadata_arg(arg@, *cql_type) {
            Some(Some(b)) => r matches Some(Some(v)) && v@ == b,
            Some(None) => r matches Some(None),
            None => r is None,
        },
{
    let c = chars_of(arg);
    let null = chars_of("null");
    proof {
        reveal_strlit("null");
    }
    if eq_ignore_case_exec(&c, &null) {
        return Some(None);
    }
    match cql_type {
        CqlType::Ascii | CqlType::Varchar => Some(Some(bytes_copy(arg.as_bytes()))),
        CqlType::Boolean => {
            if str_eq(arg, "true") {
                let mut v: Vec<u8> = Vec::new();
                v.push(1);
                assert(v@ =~= seq![1u8]);
                Some(Some(v))
            } else if str_eq(arg, "false") {
                let mut v: Vec<u8> = Vec::new();
                v.push(0);
                assert(v@ =~= seq![0u8]);
                Some(Some(v))
            } else {
                None
            }
        },
        CqlType::Tinyint => signed_arg_exec(&c, 1),
        CqlType::Smallint => signed_arg_exec(&c, 2),
        CqlType::Int => signed_arg_exec(&c, 4),
        CqlType::Bigint | CqlType::Counter | CqlType::Timestamp | CqlType::Time => signed_arg_exec(&c, 8),
        CqlType::Varint => match parse_varint_bytes(arg) {
            Some(b) => Some(Some(b)),
            None => None,
        },
        CqlType::Blob => match parse_blob_metadata_arg(arg) {
            Some(b) => Some(Some(b)),
            None => None,
        },
        CqlType::Uuid | CqlType::Timeuuid => match parse_uuid_bytes(arg) {
            Some(b) => Some(Some(b)),
            None => None,
        },
        CqlType::Date => {
            if c.len() > 0 && c[0] == '-' {
                return None;
            }
            match parse_i64_exec(&c) {
                Some(v) => {
                    if 0 <= v && v <= 4294967295 {
                        proof {
                            crate::numbers::lemma_pow256_positive(4);
                            reveal_with_fuel(pow256, 5);
                        }
                        Some(Some(be_bytes_wrapping(v as i128, 4)))
                    } else {
                        None
                    }
                },
                None => None,
            }
        },
        _ => None,
    }
}

// ─── masked columns a query restricts ───────────────────────────────────

/// Whether `names` holds `name`.
pub open spec fn listed(names: Seq<String>, name: Seq<char>) -> bool {
    exists|i: int| 0 <= i < names.len() && (#[trigger] names[i])@ == name
}

/// Whether a column name is among the masked ones.
pub open spec fn masked_in(masked: Seq<String>) -> spec_fn(Seq<char>) -> bool {
    |n: Seq<char>| listed(masked, n)
}

/// The masked columns a relation restricts: those of the partition key for
/// a `token` relation, else its own column when that is masked.
pub open spec fn restricted_by(column: Seq<char>, pk_names: Seq<String>, masked: Seq<String>) -> Seq<Seq<char>> {
    if eq_ignore_case(column, "token"@) {
        string_views(pk_names).filter(masked_in(masked))
    } else if listed(masked, column) {
        seq![column]
    } else {
        seq![]
    }
}

/// Whether a name is restricted by one of the relations on `relation_columns`.
pub open spec fn restricted(relation_columns: Seq<String>, pk_names: Seq<String>, masked: Seq<String>, name: Seq<char>) -> bool {
    exists|i: int| 0 <= i < relation_columns.len()
        && #[trigger] restricted_by(relation_columns[i]@, pk_names, masked).contains(name)
}

/// Whether names are in strictly increasing order.
pub open spec fn strictly_sorted(s: Seq<Seq<char>>) -> bool {
    forall|i: int, j: int| 0 <= i < j < s.len() ==> text_less(s[i], s[j])
}

fn less_than(a: &String, b: &Vec<char>) -> (r: bool)
    ensures
        r == text_less(a@, b@),
{
    let ac = chars_of(a.as_str());
    text_less_exec(&ac, b)
}

/// Inserts `name` into the strictly sorted `out` unless it is there.
fn insert_sorted(out: &mut Vec<String>, name: &String)
    requires
        strictly_sorted(string_views(old(out)@)),
    ensures
        strictly_sorted(string_views(final(out)@)),
        forall|x: Seq<char>| #[trigger] string_views(final(out)@).contains(x)
            <==> (string_views(old(out)@).contains(x) || x == name@),
{
    let ghost before = string_views(out@);
    let nc = chars_of(name.as_str());
    let mut k: usize = 0;
    while k < out.len() && less_than(&out[k], &nc)
        invariant
            k <= out@.len(),
            string_views(out@) == before,
            strictly_sorted(before),
            nc@ == name@,
            forall|j: int| 0 <= j < k ==> text_less(#[trigger] before[j], name@),
        decreases out.len() - k,
    {
        k = k + 1;
    }
    if k < out.len() && str_eq(out[k].as_str(), name.as_str()) {
        assert(before[k as int] == name@);
        return;
    }
    proof {
        if k < before.len() {
            lemma_text_total(before[k as int], name@);
            assert forall|j: int| k <= j < before.len() implies text_less(name@, #[trigger] before[j]) by {
                if j > k {
                    lemma_text_transitive(name@, before[k as int], before[j]);
                }
            }
        }
    }
    out.insert(k, name.clone());
    let ghost after = string_views(out@);
    assert(after =~= before.insert(k as int, name@));
    assert forall|i: int, j: int| 0 <= i < j < after.len() implies text_less(after[i], after[j]) by {
        if j < k {
        } else if j == k {
        } else if i < k {
            assert(after[j] == before[j - 1]);
            lemma_text_transitive(after[i], name@, after[j]);
        } else if i == k {
            assert(after[j] == before[j - 1]);
        } else {
            assert(after[i] == before[i - 1] && after[j] == before[j - 1]);
        }
    }
    assert forall|x: Seq<char>| #[trigger] after.contains(x) <==> (before.contains(x) || x == name@) by {
        if before.contains(x) {
            let j = choose|j: int| 0 <= j < before.len() && before[j] == x;
            if j < k { assert(after[j] == x); } else { assert(after[j + 1] == x); }
        }
        if x == name@ {
            assert(after[k as int] == x);
        }
        if after.contains(x) {
            let j = choose|j: int| 0 <= j < after.len() && after[j] == x;
            if j < k { assert(before[j] == x); } else if j > k { assert(before[j - 1] == x); }
        }
    }
}

pub(crate) fn listed_exec(names: &[String], name: &str) -> (r: bool)
    ensures
        r == listed(names@, name@),
{
    let mut i: usize = 0;
    while i < names.len()
        invariant
            i <= names@.len(),
            forall|j: int| 0 <= j < i ==> (#[trigger] names@[j])@ != name@,
        decreases names.len() - i,
    {
        if str_eq(names[i].as_str(), name) {
            return true;
        }
        i = i + 1;
    }
    false
}

/// The masked columns that the relations on `relation_columns` restrict,
/// sorted and without repeats: the partition key's masked columns for a
/// `token` relation, else the relation's column when it is masked.
/// `masked` names the table's masked columns.
pub fn masked_restricted_columns(masked: &[String], relation_columns: &[String], partition_key_columns: &[String]) -> (r: Vec<String>)
    ensures
        strictly_sorted(string_views(r@)),
        forall|x: Seq<char>| #[trigger] string_views(r@).contains(x)
            <==> restricted(relation_columns@, partition_key_columns@, masked@, x),
{
    let mut out: Vec<String> = Vec::new();
    let tok = chars_of("token");
    proof {
        reveal_strlit("token");
    }
    let mut i: usize = 0;
    while i < relation_columns.len()
        invariant
            i <= relation_columns@.len(),
            tok@ == "token"@,
            strictly_sorted(string_views(out@)),
            forall|x: Seq<char>| #[trigger] string_views(out@).contains(x)
                <==> restricted(relation_columns@.subrange(0, i as int), partition_key_columns@, masked@, x),
        decreases relation_columns.len() - i,
    {
        let column = &relation_columns[i];
        let cc = chars_of(column.as_str());
        let ghost pre = string_views(out@);
        let ghost rb = restricted_by(column@, partition_key_columns@, masked@);
        if eq_ignore_case_exec(&cc, &tok) {
            let ghost pks = string_views(partition_key_columns@);
            let mut j: usize = 0;
            while j < partition_key_columns.len()
                invariant
                    j <= partition_key_columns@.len(),
                    pks == string_views(partition_key_columns@),
                    strictly_sorted(string_views(out@)),
                    forall|x: Seq<char>| #[trigger] string_views(out@).contains(x)
                        <==> (pre.contains(x) || pks.subrange(0, j as int).filter(masked_in(masked@)).contains(x)),
                decreases partition_key_columns.len() - j,
            {
                proof {
                    reveal(Seq::filter);
                    assert(pks.subrange(0, j + 1).drop_last() =~= pks.subrange(0, j as int));
                }
                if listed_exec(masked, partition_key_columns[j].as_str()) {
                    insert_sorted(&mut out, &partition_key_columns[j]);
                }
                j = j + 1;
            }
            proof {
                assert(pks.subrange(0, pks.len() as int) =~= pks);
                assert(eq_ignore_case(column@, "token"@));
                assert(rb == pks.filter(masked_in(masked@)));
            }
        } else if listed_exec(masked, column.as_str()) {
            insert_sorted(&mut out, column);
            proof {
                assert forall|x: Seq<char>| rb.contains(x) <==> x == column@ by {
                    if x == column@ { assert(rb[0] == x); }
                }
            }
        } else {
            assert(rb.len() == 0);
        }
        assert forall|x: Seq<char>| #[trigger] string_views(out@).contains(x) <==> (pre.contains(x) || rb.contains(x)) by {}
        proof {
            let cols = relation_columns@;
            assert(cols.subrange(0, i + 1).drop_last() =~= cols.subrange(0, i as int));
            assert forall|x: Seq<char>| restricted(cols.subrange(0, i + 1), partition_key_columns@, masked@, x)
                <==> (restricted(cols.subrange(0, i as int), partition_key_columns@, masked@, x) || rb.contains(x)) by {
                let s1 = cols.subrange(0, i + 1);
                if restricted(s1, partition_key_columns@, masked@, x) {
                    let m = choose|m: int| 0 <= m < s1.len() && #[trigger] restricted_by(s1[m]@, partition_key_columns@, masked@).contains(x);
                    if m < i {
                        assert(cols.subrange(0, i as int)[m] == s1[m]);
                    }
                }
                if restricted(cols.subrange(0, i as int), partition_key_columns@, masked@, x) {
                    let m = choose|m: int| 0 <= m < i && #[trigger] restricted_by(cols.subrange(0, i as int)[m]@, partition_key_columns@, masked@).contains(x);
                    assert(s1[m] == cols.subrange(0, i as int)[m]);
                }
                if rb.contains(x) {
                    assert(s1[i as int] == cols[i as int]);
                }
            }
        }
        i = i + 1;
    }
    proof {
        assert(relation_columns@.subrange(0, relation_columns@.len() as int) =~= relation_columns@);
    }
    out
}

/// Whether a query may filter on masked columns, and whether its results
/// are masked: a user without `UNMASK` who filters on the masked columns
/// `restricted` needs `SELECT_MASKED`; results are masked unless the user
/// has `UNMASK` (anonymous queries are always masked).
pub open spec fn masked_access(user: Option<Seq<char>>, has_unmask: bool, has_select_masked: bool,
    keyspace: Seq<char>, table: Seq<char>, restricted: Seq<Seq<char>>) -> Result<bool, Seq<char>> {
    match user {
        Some(u) => if !has_unmask && restricted.len() > 0 && !has_select_masked {
            Err("User "@ + u + " has no UNMASK nor SELECT_MASKED permission on table "@ + keyspace + "."@ + table
                + ", cannot query masked columns ["@ + join(restricted, ", "@) + "]"@)
        } else {
            Ok(!has_unmask)
        },
        None => Ok(true),
    }
}

/// Decides whether a `SELECT` by `user` (none when anonymous) may run and
/// whether its results are masked, from the user's `UNMASK` and
/// `SELECT_MASKED` permissions on the table and the masked columns its
/// relations restrict (as `masked_restricted_columns` gives them).
pub fn check_masked_column_access(
    user: Option<&str>,
    has_unmask: bool,
    has_select_masked: bool,
    keyspace: &str,
    table: &str,
    restricted: &[String],
) -> (r: Result<bool, ExecutorError>)
    ensures
        match masked_access(match user { Some(u) => Some(u@), None => None }, has_unmask, has_select_masked,
            keyspace@, table@, string_views(restricted@)) {
            Ok(b) => r == Ok::<bool, ExecutorError>(b),
            Err(m) => r matches Err(ExecutorError::InvalidQuery(e)) && e@ == m,
        },
{
    match user {
        Some(u) => {
            if !has_unmask && restricted.len() > 0 && !has_select_masked {
                let mut m = String::new();
                push_str(&mut m, "User ");
                push_str(&mut m, u);
                push_str(&mut m, " has no UNMASK nor SELECT_MASKED permission on table ");
                push_str(&mut m, keyspace);
                push_str(&mut m, ".");
                push_str(&mut m, table);
                push_str(&mut m, ", cannot query masked columns [");
                push_joined(&mut m, restricted, ", ");
                push_str(&mut m, "]");
                return Err(ExecutorError::InvalidQuery(m));
            }
            Ok(!has_unmask)
        },
        None => Ok(true),
    }
}

// ─── laws ───────────────────────────────────────────────────────────────

/// Every masking function takes the masked column's value as its first argument.
pub proof fn lemma_mask_first_arg_is_column(function_name: Seq<char>, column_type: CqlType, n: nat)
    ensures
        mask_arg_types(function_name, column_type, n) matches Some(ts) ==> ts.len() == n + 1 && ts[0] == column_type,
{
}

} // verus!

//! Row filtering: whether a stored value satisfies a `WHERE` relation.
use vstd::prelude::*;
use vstd::utf8::{valid_utf8, decode_utf8};
use crate::chars::{trim, split_once, strip_prefix, strip_suffix, eq_ignore_case, trim_chars, strip_prefix_exec, strip_suffix_exec, eq_ignore_case_exec};
use crate::java_body::comma_parts;
use crate::java_parse::comma_parts_exec;
use crate::like::{like_spec, like_matches};
use crate::text::{chars_of, string_from_chars};
use crate::types::{CqlType, fixed_width, fixed_width_cql_type};
use crate::numbers::{signed_be, unsigned_be, read_be, read_unsigned_be, lemma_pow256_small, pow256, be_bytes, lemma_be_bytes_round_trip};
use crate::bigint::bigint_less;

verus! {

broadcast use vstd::seq_lib::group_seq_properties;

/// The operator of a relation.
#[derive(Debug, Clone, Copy, PartialEq, Eq, Structural)]
pub enum RelationOp {
    Eq,
    Neq,
    Lt,
    Gt,
    Lte,
    Gte,
    In,
    Contains,
    ContainsKey,
    Like,
}

/// Lexicographic order on byte strings: whether `a` sorts before `b`.
pub open spec fn lex_less(a: Seq<u8>, b: Seq<u8>) -> bool
    decreases a.len(),
{
    if a.len() == 0 {
        b.len() > 0
    } else if b.len() == 0 {
        false
    } else if a[0] != b[0] {
        a[0] < b[0]
    } else {
        lex_less(a.drop_first(), b.drop_first())
    }
}

/// Whether `a` sorts before `b`, byte by byte.
pub fn lex_less_exec(a: &[u8], b: &[u8]) -> (r: bool)
    ensures
        r == lex_less(a@, b@),
{
    let mut i: usize = 0;
    assert(a@.subrange(0, a@.len() as int) =~= a@);
    assert(b@.subrange(0, b@.len() as int) =~= b@);
    while i < a.len() && i < b.len()
        invariant
            i <= a@.len(),
            i <= b@.len(),
            a@.subrange(0, i as int) == b@.subrange(0, i as int),
            lex_less(a@, b@) == lex_less(a@.subrange(i as int, a@.len() as int), b@.subrange(i as int, b@.len() as int)),
        decreases a.len() - i,
    {
        if a[i] != b[i] {
            return a[i] < b[i];
        }
        let ghost sa = a@.subrange(i as int, a@.len() as int);
        let ghost sb = b@.subrange(i as int, b@.len() as int);
        assert(sa.drop_first() =~= a@.subrange(i + 1, a@.len() as int));
        assert(sb.drop_first() =~= b@.subrange(i + 1, b@.len() as int));
        assert(a@.subrange(0, i + 1) =~= a@.subrange(0, i as int).push(a@[i as int]));
        assert(b@.subrange(0, i + 1) =~= b@.subrange(0, i as int).push(b@[i as int]));
        i = i + 1;
    }
    i == a.len() && i < b.len()
}

/// Whether values of type `t` are ordered as signed integers, from their
/// big-endian two's-complement bytes: the integer types, counters, varints,
/// timestamps and times.
pub open spec fn signed_order(t: Option<CqlType>) -> bool {
    match t {
        Some(CqlType::Tinyint) | Some(CqlType::Smallint) | Some(CqlType::Int) | Some(CqlType::Bigint)
        | Some(CqlType::Counter) | Some(CqlType::Varint) | Some(CqlType::Timestamp) | Some(CqlType::Time) => true,
        _ => false,
    }
}

/// The byte width of a floating-point type: 4 for `float`, 8 for `double`.
pub open spec fn float_width(t: Option<CqlType>) -> Option<nat> {
    match t {
        Some(CqlType::Float) => Some(4),
        Some(CqlType::Double) => Some(8),
        _ => None,
    }
}

/// The place of the IEEE 754 value with bits `bits` (sign bit `half`, the
/// bits of infinity `inf`) in Java's total order of floating-point values:
/// negative values below `-0.0`, below `+0.0`, below positive values, below
/// NaN, all NaNs in one place.
pub open spec fn ieee_rank(bits: int, half: int, inf: int) -> int {
    if bits >= half {
        if bits - half > inf { 2 * half } else { 2 * half - 1 - bits }
    } else if bits > inf {
        2 * half
    } else {
        bits + half
    }
}

/// The place of a `float` (four bytes) or `double` (eight bytes) in the
/// total order of its values.
pub open spec fn float_rank(b: Seq<u8>) -> int {
    if b.len() == 4 {
        ieee_rank(unsigned_be(b) as int, 0x8000_0000, 0x7f80_0000)
    } else {
        ieee_rank(unsigned_be(b) as int, 0x8000_0000_0000_0000, 0x7ff0_0000_0000_0000)
    }
}

/// Whether the stored value `a` sorts before `b` in the order of the
/// column's type `t`: by signed value for the integer types, by
/// floating-point value for well-sized floats and doubles, and byte by byte
/// otherwise (text, blobs, dates, UUIDs, booleans, decimals).
pub open spec fn value_less(t: Option<CqlType>, a: Seq<u8>, b: Seq<u8>) -> bool {
    if signed_order(t) {
        signed_be(a) < signed_be(b)
    } else if float_width(t) is Some && a.len() == float_width(t)->0 && b.len() == float_width(t)->0 {
        float_rank(a) < float_rank(b)
    } else {
        lex_less(a, b)
    }
}

/// The ordered comparison `op` between `current` and `expected`, values of type `t`.
pub open spec fn ordered_holds(op: RelationOp, t: Option<CqlType>, current: Seq<u8>, expected: Seq<u8>) -> bool {
    match op {
        RelationOp::Lt => value_less(t, current, expected),
        RelationOp::Gt => value_less(t, expected, current),
        RelationOp::Lte => !value_less(t, expected, current),
        RelationOp::Gte => !value_less(t, current, expected),
        _ => false,
    }
}

/// The type a borrowed column type stands for.
pub open spec fn type_of(t: Option<&CqlType>) -> Option<CqlType> {
    match t {
        Some(c) => Some(*c),
        None => None,
    }
}

fn signed_order_exec(t: Option<&CqlType>) -> (r: bool)
    ensures
        r == signed_order(type_of(t)),
{
    match t {
        Some(CqlType::Tinyint) | Some(CqlType::Smallint) | Some(CqlType::Int) | Some(CqlType::Bigint)
        | Some(CqlType::Counter) | Some(CqlType::Varint) | Some(CqlType::Timestamp) | Some(CqlType::Time) => true,
        _ => false,
    }
}

fn float_width_exec(t: Option<&CqlType>) -> (r: Option<usize>)
    ensures
        match r {
            Some(w) => float_width(type_of(t)) == Some(w as nat),
            None => float_width(type_of(t)) is None,
        },
{
    match t {
        Some(CqlType::Float) => Some(4),
        Some(CqlType::Double) => Some(8),
        _ => None,
    }
}

/// Whether `a` is below `b` as signed integers.
fn signed_less(a: &[u8], b: &[u8]) -> (r: bool)
    ensures
        r == (signed_be(a@) < signed_be(b@)),
{
    if 1 <= a.len() && a.len() <= 8 && 1 <= b.len() && b.len() <= 8 {
        read_be(a) < read_be(b)
    } else {
        bigint_less(a, b)
    }
}

fn float_rank_exec(b: &[u8]) -> (r: u128)
    requires
        b@.len() == 4 || b@.len() == 8,
    ensures
        r == float_rank(b@),
{
    let bits = read_unsigned_be(b);
    proof {
        lemma_pow256_small(0);
    }
    let half: u128 = if b.len() == 4 { 0x8000_0000 } else { 0x8000_0000_0000_0000 };
    let inf: u128 = if b.len() == 4 { 0x7f80_0000 } else { 0x7ff0_0000_0000_0000 };
    assert(bits < 2 * half);
    if bits >= half {
        if bits - half > inf { 2 * half } else { 2 * half - 1 - bits }
    } else if bits > inf {
        2 * half
    } else {
        bits + half
    }
}

/// Whether the stored value `a` sorts before `b` in the order of the type `t`.
pub fn value_less_exec(t: Option<&CqlType>, a: &[u8], b: &[u8]) -> (r: bool)
    ensures
        r == value_less(type_of(t), a@, b@),
{
    if signed_order_exec(t) {
        return signed_less(a, b);
    }
    if let Some(w) = float_width_exec(t) {
        if a.len() == w && b.len() == w {
            return float_rank_exec(a) < float_rank_exec(b);
        }
    }
    lex_less_exec(a, b)
}

/// The first expected value, if there is one and it is not null.
pub open spec fn first_expected(expected: Seq<Option<Seq<u8>>>) -> Option<Seq<u8>> {
    if expected.len() > 0 { expected[0] } else { None }
}

/// Whether `needle` occurs as a contiguous run inside `hay`.
pub open spec fn has_window(hay: Seq<u8>, needle: Seq<u8>) -> bool {
    exists|k: int| 0 <= k && k + needle.len() <= hay.len() && #[trigger] hay.subrange(k, k + needle.len()) == needle
}

/// Whether an expected value is a non-empty run inside `current`.
pub open spec fn contains_hit(expected: Option<Seq<u8>>, current: Seq<u8>) -> bool {
    match expected {
        Some(e) => e.len() > 0 && has_window(current, e),
        None => false,
    }
}

/// The characters a byte string encodes, when it is valid UTF-8.
pub open spec fn utf8_text(b: Seq<u8>) -> Option<Seq<char>> {
    if valid_utf8(b) { Some(decode_utf8(b)) } else { None }
}

/// Whether a stored value (`None` when absent or null) of a column of type
/// `t` satisfies a relation whose right-hand side encodes to `expected` (one
/// entry per value; `None` for a value that has no encoding). `<`, `>`, `<=`
/// and `>=` compare in the order of the type (see `value_less`).
pub open spec fn relation_holds(op: RelationOp, t: Option<CqlType>, current: Option<Seq<u8>>, expected: Seq<Option<Seq<u8>>>) -> bool {
    match op {
        RelationOp::Eq => current is Some && first_expected(expected) == current,
        RelationOp::Neq => !(current is Some && first_expected(expected) == current),
        RelationOp::Lt | RelationOp::Gt | RelationOp::Lte | RelationOp::Gte => match (current, first_expected(expected)) {
            (Some(c), Some(e)) => ordered_holds(op, t, c, e),
            _ => false,
        },
        RelationOp::In => current is Some && exists|i: int| 0 <= i < expected.len() && expected[i] == current,
        RelationOp::Contains | RelationOp::ContainsKey => match current {
            Some(c) => exists|i: int| 0 <= i < expected.len() && contains_hit(#[trigger] expected[i], c),
            None => false,
        },
        RelationOp::Like => match current {
            Some(c) => match (utf8_text(c), first_expected(expected)) {
                (Some(v), Some(p)) => match utf8_text(p) {
                    Some(pt) => like_spec(v, pt),
                    None => false,
                },
                _ => false,
            },
            None => false,
        },
    }
}

/// The UTF-8 text of `b`, if it is valid (std's `str::from_utf8`).
#[verifier::external_body]
fn utf8_decode(b: &[u8]) -> (r: Option<String>)
    ensures
        match r {
            Some(s) => valid_utf8(b@) && s@ == decode_utf8(b@),
            None => !valid_utf8(b@),
        },
{
    std::str::from_utf8(b).ok().map(|s| s.to_string())
}

/// A copy of a byte string.
pub(crate) fn bytes_copy(a: &[u8]) -> (r: Vec<u8>)
    ensures
        r@ == a@,
{
    let mut out: Vec<u8> = Vec::new();
    let mut i: usize = 0;
    while i < a.len()
        invariant
            i <= a@.len(),
            out@ == a@.subrange(0, i as int),
        decreases a.len() - i,
    {
        out.push(a[i]);
        i = i + 1;
        assert(out@ =~= a@.subrange(0, i as int));
    }
    assert(a@.subrange(0, a@.len() as int) =~= a@);
    out
}

/// Whether two byte strings are equal.
pub(crate) fn bytes_eq(a: &[u8], b: &[u8]) -> (r: bool)
    ensures
        r == (a@ == b@),
{
    if a.len() != b.len() {
        return false;
    }
    let mut i: usize = 0;
    while i < a.len()
        invariant
            a@.len() == b@.len(),
            i <= a@.len(),
            a@.subrange(0, i as int) == b@.subrange(0, i as int),
        decreases a.len() - i,
    {
        if a[i] != b[i] {
            assert(a@[i as int] != b@[i as int]);
            return false;
        }
        assert(a@.subrange(0, i + 1) =~= a@.subrange(0, i as int).push(a@[i as int]));
        assert(b@.subrange(0, i + 1) =~= b@.subrange(0, i as int).push(b@[i as int]));
        i = i + 1;
    }
    assert(a@ =~= a@.subrange(0, a@.len() as int));
    assert(b@ =~= b@.subrange(0, b@.len() as int));
    true
}

fn window_at(hay: &[u8], needle: &[u8], k: usize) -> (r: bool)
    requires
        k + needle@.len() <= hay@.len(),
    ensures
        r == (hay@.subrange(k as int, k + needle@.len()) == needle@),
{
    let n = hay.len();
    let mut i: usize = 0;
    while i < needle.len()
        invariant
            n == hay@.len(),
            k + needle@.len() <= hay@.len(),
            i <= needle@.len(),
            hay@.subrange(k as int, k + i) == needle@.subrange(0, i as int),
        decreases needle.len() - i,
    {
        if hay[k + i] != needle[i] {
            assert(hay@.subrange(k as int, k + needle@.len())[i as int] != needle@[i as int]);
            return false;
        }
        assert(hay@.subrange(k as int, k + i + 1) =~= hay@.subrange(k as int, k + i).push(hay@[k + i]));
        assert(needle@.subrange(0, i + 1) =~= needle@.subrange(0, i as int).push(needle@[i as int]));
        i = i + 1;
    }
    assert(needle@ =~= needle@.subrange(0, needle@.len() as int));
    true
}

fn has_window_exec(hay: &[u8], needle: &[u8]) -> (r: bool)
    ensures
        r == has_window(hay@, needle@),
{
    if needle.len() > hay.len() {
        return false;
    }
    let last = hay.len() - needle.len();
    let mut k: usize = 0;
    loop
        invariant
            last == hay@.len() - needle@.len(),
            needle@.len() <= hay@.len(),
            k <= last,
            forall|j: int| 0 <= j < k ==> #[trigger] hay@.subrange(j, j + needle@.len()) != needle@,
        decreases last - k,
    {
        if window_at(hay, needle, k) {
            return true;
        }
        if k == last {
            assert forall|j: int| 0 <= j && j + needle@.len() <= hay@.len() implies
                #[trigger] hay@.subrange(j, j + needle@.len()) != needle@ by {
                assert(j <= k);
            }
            return false;
        }
        k = k + 1;
    }
}

/// Whether a stored value of a column of type `column_type` satisfies a
/// relation, given the encoded right-hand side.
pub fn relation_matches(op: RelationOp, column_type: Option<&CqlType>, current: Option<&[u8]>, expected: &[Option<Vec<u8>>]) -> (r: bool)
    ensures
        r == relation_holds(op, type_of(column_type), match current { Some(c) => Some(c@), None => None }, expected.deep_view()),
{
    let ghost cur = match current { Some(c) => Some(c@), None => None::<Seq<u8>> };
    let ghost exp = expected.deep_view();
    let first: Option<&[u8]> = if expected.len() > 0 {
        match &expected[0] {
            Some(v) => {
                assert(v.deep_view() =~= v@);
                Some(v.as_slice())
            },
            None => None,
        }
    } else {
        None
    };
    assert(match first { Some(f) => Some(f@), None => None::<Seq<u8>> } == first_expected(exp));
    match op {
        RelationOp::Eq | RelationOp::Neq => {
            let same = match (current, first) {
                (Some(c), Some(e)) => bytes_eq(c, e),
                _ => false,
            };
            if let RelationOp::Eq = op { same } else { !same }
        },
        RelationOp::Lt | RelationOp::Gt | RelationOp::Lte | RelationOp::Gte => match (current, first) {
            (Some(c), Some(e)) => match op {
                RelationOp::Lt => value_less_exec(column_type, c, e),
                RelationOp::Gt => value_less_exec(column_type, e, c),
                RelationOp::Lte => !value_less_exec(column_type, e, c),
                _ => !value_less_exec(column_type, c, e),
            },
            _ => false,
        },
        RelationOp::In => {
            let Some(c) = current else { return false; };
            let mut i: usize = 0;
            while i < expected.len()
                invariant
                    i <= expected@.len(),
                    exp == expected.deep_view(),
                    cur == Some(c@),
                    op == RelationOp::In,
                    cur == (match current { Some(c) => Some(c@), None => None::<Seq<u8>> }),
                    forall|j: int| 0 <= j < i ==> exp[j] != cur,
                decreases expected.len() - i,
            {
                if let Some(e) = &expected[i] {
                    assert(e.deep_view() =~= e@);
                    if bytes_eq(e.as_slice(), c) {
                        assert(exp[i as int] == cur);
                        return true;
                    }
                }
                i = i + 1;
            }
            false
        },
        RelationOp::Contains | RelationOp::ContainsKey => {
            let Some(c) = current else { return false; };
            let mut i: usize = 0;
            while i < expected.len()
                invariant
                    i <= expected@.len(),
                    exp == expected.deep_view(),
                    op == RelationOp::Contains || op == RelationOp::ContainsKey,
                    current == Some(c),
                    forall|j: int| 0 <= j < i ==> !contains_hit(#[trigger] exp[j], c@),
                decreases expected.len() - i,
            {
                if let Some(e) = &expected[i] {
                    assert(e.deep_view() =~= e@);
                    if e.len() > 0 && has_window_exec(c, e.as_slice()) {
                        assert(contains_hit(exp[i as int], c@));
                        return true;
                    }
                }
                i = i + 1;
            }
            false
        },
        RelationOp::Like => {
            let Some(c) = current else { return false; };
            let Some(value) = utf8_decode(c) else { return false; };
            let Some(p) = first else { return false; };
            let Some(pattern) = utf8_decode(p) else { return false; };
            like_matches(value.as_str(), pattern.as_str())
        },
    }
}

/// Whether a partition's token satisfies a `token(...)` relation with the given expected tokens.
pub open spec fn token_relation_holds(op: RelationOp, token: i64, expected: Seq<i64>) -> bool {
    match op {
        RelationOp::Eq => expected.len() > 0 && token == expected[0],
        RelationOp::Neq => expected.len() == 0 || token != expected[0],
        RelationOp::Lt => expected.len() > 0 && token < expected[0],
        RelationOp::Gt => expected.len() > 0 && token > expected[0],
        RelationOp::Lte => expected.len() > 0 && token <= expected[0],
        RelationOp::Gte => expected.len() > 0 && token >= expected[0],
        RelationOp::In => expected.contains(token),
        _ => false,
    }
}

/// Whether a partition's token satisfies a `token(...)` relation.
pub fn token_relation_matches(op: RelationOp, token: i64, expected: &[i64]) -> (r: bool)
    ensures
        r == token_relation_holds(op, token, expected@),
{
    match op {
        RelationOp::Eq => expected.len() > 0 && token == expected[0],
        RelationOp::Neq => expected.len() == 0 || token != expected[0],
        RelationOp::Lt => expected.len() > 0 && token < expected[0],
        RelationOp::Gt => expected.len() > 0 && token > expected[0],
        RelationOp::Lte => expected.len() > 0 && token <= expected[0],
        RelationOp::Gte => expected.len() > 0 && token >= expected[0],
        RelationOp::In => {
            let mut i: usize = 0;
            while i < expected.len()
                invariant
                    i <= expected@.len(),
                    op == RelationOp::In,
                    forall|j: int| 0 <= j < i ==> expected@[j] != token,
                decreases expected.len() - i,
            {
                if expected[i] == token {
                    assert(expected@[i as int] == token);
                    return true;
                }
                i = i + 1;
            }
            false
        },
        _ => false,
    }
}

/// For the integer types, range relations order values by the numbers they
/// encode: of two `n`-byte encodings, the one of the smaller number sorts
/// first, whatever its bytes (so `-1` sorts before `1`).
pub proof fn lemma_integers_sort_by_value(t: Option<CqlType>, x: int, y: int, n: nat)
    requires
        signed_order(t),
        1 <= n,
        -(pow256(n) as int) / 2 <= x < (pow256(n) as int) / 2,
        -(pow256(n) as int) / 2 <= y < (pow256(n) as int) / 2,
    ensures
        value_less(t, be_bytes(x, n), be_bytes(y, n)) == (x < y),
        ordered_holds(RelationOp::Lt, t, be_bytes(x, n), be_bytes(y, n)) == (x < y),
        ordered_holds(RelationOp::Lte, t, be_bytes(x, n), be_bytes(y, n)) == (x <= y),
        ordered_holds(RelationOp::Gt, t, be_bytes(x, n), be_bytes(y, n)) == (x > y),
        ordered_holds(RelationOp::Gte, t, be_bytes(x, n), be_bytes(y, n)) == (x >= y),
{
    lemma_be_bytes_round_trip(x, n);
    lemma_be_bytes_round_trip(y, n);
}

/// A `token(...)` relation compares the partition's token with the first
/// expected token: `<=` holds exactly when the token is at most it, and so
/// on; `<=` is `<` or `=`, `>=` is `>` or `=`, `!=` is not `=`.
pub proof fn lemma_token_comparisons(token: i64, expected: Seq<i64>)
    requires
        expected.len() > 0,
    ensures
        token_relation_holds(RelationOp::Lte, token, expected) == (token <= expected[0]),
        token_relation_holds(RelationOp::Lt, token, expected) == (token < expected[0]),
        token_relation_holds(RelationOp::Gte, token, expected) == (token >= expected[0]),
        token_relation_holds(RelationOp::Gt, token, expected) == (token > expected[0]),
        token_relation_holds(RelationOp::Eq, token, expected) == (token == expected[0]),
        token_relation_holds(RelationOp::Neq, token, expected) == (token != expected[0]),
        token_relation_holds(RelationOp::Lte, token, expected)
            == (token_relation_holds(RelationOp::Lt, token, expected) || token_relation_holds(RelationOp::Eq, token, expected)),
        token_relation_holds(RelationOp::Gte, token, expected)
            == (token_relation_holds(RelationOp::Gt, token, expected) || token_relation_holds(RelationOp::Eq, token, expected)),
{
}

/// Byte strings are totally ordered: equal strings are not less than each
/// other, and of two different strings one sorts first.
pub proof fn lemma_lex_trichotomy(a: Seq<u8>, b: Seq<u8>)
    ensures
        a != b ==> lex_less(a, b) || lex_less(b, a),
        a == b ==> !lex_less(a, b),
    decreases a.len(),
{
    if a.len() > 0 && b.len() > 0 && a[0] == b[0] {
        lemma_lex_trichotomy(a.drop_first(), b.drop_first());
        if a != b {
            assert(a =~= seq![a[0]] + a.drop_first());
            assert(b =~= seq![b[0]] + b.drop_first());
        }
    } else if a.len() == 0 && b.len() == 0 {
        assert(a =~= b);
    }
}

/// The byte order is asymmetric: two strings never sort before each other.
pub proof fn lemma_lex_asymmetric(a: Seq<u8>, b: Seq<u8>)
    ensures
        !(lex_less(a, b) && lex_less(b, a)),
    decreases a.len(),
{
    if a.len() > 0 && b.len() > 0 && a[0] == b[0] {
        lemma_lex_asymmetric(a.drop_first(), b.drop_first());
    }
}

/// For a present value compared with a present expected value of a column
/// of type `t`, exactly one of `<`, `=`, `>` holds; `<=` is `<` or `=`,
/// `>=` is `>` or `=`, and `!=` is the negation of `=` (where values that the
/// type's order puts in one place have one encoding).
pub proof fn lemma_comparisons_partition(t: Option<CqlType>, c: Seq<u8>, e: Seq<u8>)
    requires
        !value_less(t, c, e) && !value_less(t, e, c) ==> c == e,
    ensures
        ({
            let cur = Some(c);
            let exp = seq![Some(e)];
            let lt = relation_holds(RelationOp::Lt, t, cur, exp);
            let eq = relation_holds(RelationOp::Eq, t, cur, exp);
            let gt = relation_holds(RelationOp::Gt, t, cur, exp);
            &&& (lt || eq || gt)
            &&& !(lt && eq) && !(lt && gt) && !(eq && gt)
            &&& relation_holds(RelationOp::Lte, t, cur, exp) == (lt || eq)
            &&& relation_holds(RelationOp::Gte, t, cur, exp) == (gt || eq)
            &&& relation_holds(RelationOp::Neq, t, cur, exp) == !eq
        }),
{
    lemma_lex_trichotomy(c, e);
    lemma_lex_trichotomy(e, c);
    lemma_lex_asymmetric(c, e);
    lemma_lex_trichotomy(c, c);
    let exp = seq![Some(e)];
    assert(first_expected(exp) == Some(e));
}

/// `IN` with a single value is `=` on that value.
pub proof fn lemma_in_single_is_eq(t: Option<CqlType>, c: Option<Seq<u8>>, e: Option<Seq<u8>>)
    ensures
        relation_holds(RelationOp::In, t, c, seq![e]) == relation_holds(RelationOp::Eq, t, c, seq![e]),
{
    let exp = seq![e];
    assert(first_expected(exp) == e);
    if relation_holds(RelationOp::Eq, t, c, exp) {
        assert(exp[0] == c);
    }
}

} // verus!

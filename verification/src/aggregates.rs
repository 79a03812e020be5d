//! Built-in aggregates over stored cell values: `count`, `sum`, `avg` and
//! the pass-through of a plain column in an aggregate query.
use vstd::prelude::*;
use crate::bigint::{bigint_zero, bigint_from_i64, bigint_add, bigint_div, bigint_normalize};
use crate::chars::{lower, lower_chars, eq_ignore_case};
use crate::error::ExecutorError;
use crate::java_semantics::trunc_div;
use crate::numbers::{signed_be, signed_bytes, be_bytes, pow256, read_be, be_bytes_exec, be_bytes_wrapping, wrap128, i128_from_be};
use crate::text::{chars_of, push_str, push_decimal_u64, nat_decimal, str_eq, string_from_chars};
use crate::types::CqlType;

verus! {

broadcast use crate::numbers::lemma_signed_bytes;

// ─── Decoding fixed-width integers ──────────────────────────────────────

/// A fixed-width integer cell: its value, or the error (`prefix` names the
/// type) with the length it had.
pub open spec fn read_fixed(prefix: Seq<char>, width: nat, value: Seq<u8>) -> Result<int, Seq<char>> {
    if value.len() == width {
        Ok(signed_be(value))
    } else {
        Err(prefix + nat_decimal(value.len()))
    }
}

fn length_error(prefix: &str, len: usize) -> (r: String)
    ensures
        r@ == prefix@ + nat_decimal(len as nat),
{
    let mut m = String::new();
    push_str(&mut m, prefix);
    push_decimal_u64(&mut m, len as u64);
    m
}

proof fn lemma_range(width: nat, value: Seq<u8>)
    requires
        value.len() == width,
        1 <= width <= 8,
    ensures
        -(pow256(width) as int) / 2 <= signed_be(value) < (pow256(width) as int) / 2,
{
    crate::numbers::lemma_unsigned_be_bound(value);
    let rest = value.subrange(1, value.len() as int);
    assert(value =~= seq![value[0]] + rest);
    crate::numbers::lemma_unsigned_be_concat(seq![value[0]], rest);
    crate::numbers::lemma_unsigned_be_bound(rest);
    reveal_with_fuel(crate::numbers::unsigned_be, 2);
    assert(seq![value[0]].drop_last() =~= Seq::<u8>::empty());
    let p = pow256(rest.len()) as int;
    let v0 = value[0] as int;
    let r = crate::numbers::unsigned_be(rest) as int;
    assert(pow256(width) == 256 * p);
    if v0 >= 128 {
        assert(v0 * p >= 128 * p) by (nonlinear_arith) requires v0 >= 128, p > 0;
        assert(v0 * p <= 255 * p) by (nonlinear_arith) requires v0 <= 255, p > 0;
    } else {
        assert(v0 * p <= 127 * p) by (nonlinear_arith) requires v0 <= 127, p > 0;
        assert(v0 * p >= 0) by (nonlinear_arith) requires v0 >= 0, p > 0;
    }
    crate::numbers::lemma_pow256_positive(rest.len());
}

/// A `tinyint` cell.
pub fn read_i8_value(value: &[u8]) -> (r: Result<i8, String>)
    ensures
        match read_fixed("invalid tinyint bytes: got "@, 1, value@) {
            Ok(v) => r matches Ok(x) && x == v,
            Err(e) => r matches Err(m) && m@ == e,
        },
{
    if value.len() != 1 {
        return Err(length_error("invalid tinyint bytes: got ", value.len()));
    }
    proof {
        lemma_range(1, value@);
        reveal_with_fuel(pow256, 2);
    }
    Ok(read_be(value) as i8)
}

/// A `smallint` cell.
pub fn read_i16_value(value: &[u8]) -> (r: Result<i16, String>)
    ensures
        match read_fixed("invalid smallint bytes: got "@, 2, value@) {
            Ok(v) => r matches Ok(x) && x == v,
            Err(e) => r matches Err(m) && m@ == e,
        },
{
    if value.len() != 2 {
        return Err(length_error("invalid smallint bytes: got ", value.len()));
    }
    proof {
        lemma_range(2, value@);
        reveal_with_fuel(pow256, 3);
    }
    Ok(read_be(value) as i16)
}

/// An `int` cell.
pub fn read_i32_value(value: &[u8]) -> (r: Result<i32, String>)
    ensures
        match read_fixed("invalid int bytes: got "@, 4, value@) {
            Ok(v) => r matches Ok(x) && x == v,
            Err(e) => r matches Err(m) && m@ == e,
        },
{
    if value.len() != 4 {
        return Err(length_error("invalid int bytes: got ", value.len()));
    }
    proof {
        lemma_range(4, value@);
        reveal_with_fuel(pow256, 5);
    }
    Ok(read_be(value) as i32)
}

/// A `bigint` cell.
pub fn read_i64_value(value: &[u8]) -> (r: Result<i64, String>)
    ensures
        match read_fixed("invalid bigint bytes: got "@, 8, value@) {
            Ok(v) => r matches Ok(x) && x == v,
            Err(e) => r matches Err(m) && m@ == e,
        },
{
    if value.len() != 8 {
        return Err(length_error("invalid bigint bytes: got ", value.len()));
    }
    proof {
        lemma_range(8, value@);
        reveal_with_fuel(pow256, 9);
    }
    Ok(read_be(value) as i64)
}

// ─── Aggregate names ────────────────────────────────────────────────────

/// Whether a function name is a built-in aggregate, in any letter case.
pub open spec fn builtin_aggregate(name: Seq<char>) -> bool {
    let l = lower(name);
    l == "count"@ || l == "count_rows"@ || l == "countrows"@ || l == "sum"@ || l == "avg"@
        || l == "min"@ || l == "max"@
}

/// Whether a function name counts rows (`count_rows` / `countrows`), in any letter case.
pub open spec fn count_rows(name: Seq<char>) -> bool {
    lower(name) == "count_rows"@ || lower(name) == "countrows"@
}

pub(crate) fn lowered(s: &str) -> (r: String)
    ensures
        r@ == lower(s@),
{
    let c = chars_of(s);
    let l = lower_chars(&c);
    string_from_chars(&l)
}

/// Whether a function name is a built-in aggregate.
pub fn is_builtin_aggregate_name(name: &str) -> (r: bool)
    ensures
        r == builtin_aggregate(name@),
{
    let l = lowered(name);
    let t = l.as_str();
    str_eq(t, "count") || str_eq(t, "count_rows") || str_eq(t, "countrows") || str_eq(t, "sum")
        || str_eq(t, "avg") || str_eq(t, "min") || str_eq(t, "max")
}

/// Whether a function name is an aggregate (only the built-in ones are).
pub fn is_aggregate_name(name: &str) -> (r: bool)
    ensures
        r == builtin_aggregate(name@),
{
    is_builtin_aggregate_name(name)
}

/// Whether a function name counts rows.
pub fn is_count_rows_name(name: &str) -> (r: bool)
    ensures
        r == count_rows(name@),
{
    let l = lowered(name);
    str_eq(l.as_str(), "count_rows") || str_eq(l.as_str(), "countrows")
}

/// Whether a selector name counts rows: `count` or a row-count name.
pub fn is_count_rows_selector_name(name: &str) -> (r: bool)
    ensures
        r == (eq_ignore_case(name@, "count"@) || count_rows(name@)),
{
    let l = lowered(name);
    let count = str_eq(l.as_str(), "count");
    proof {
        assert(lower("count"@) =~= "count"@) by {
            reveal_strlit("count");
        }
    }
    count || is_count_rows_name(name)
}

/// The result type of an aggregate over an argument of type `arg_type`.
pub open spec fn aggregate_type(name: Seq<char>, arg_type: Option<CqlType>) -> CqlType {
    let l = lower(name);
    if l == "count"@ || l == "count_rows"@ || l == "countrows"@ {
        CqlType::Bigint
    } else if l == "sum"@ || l == "avg"@ || l == "min"@ || l == "max"@ {
        match arg_type {
            Some(t) => t,
            None => CqlType::Blob,
        }
    } else {
        CqlType::Blob
    }
}

/// The result type of an aggregate.
pub fn aggregate_output_type(name: &str, arg_type: Option<&CqlType>) -> (r: CqlType)
    ensures
        r == aggregate_type(name@, match arg_type { Some(t) => Some(*t), None => None }),
{
    let l = lowered(name);
    let t = l.as_str();
    if str_eq(t, "count") || str_eq(t, "count_rows") || str_eq(t, "countrows") {
        CqlType::Bigint
    } else if str_eq(t, "sum") || str_eq(t, "avg") || str_eq(t, "min") || str_eq(t, "max") {
        match arg_type {
            Some(a) => a.duplicate(),
            None => CqlType::Blob,
        }
    } else {
        CqlType::Blob
    }
}

// ─── sum ────────────────────────────────────────────────────────────────

/// The fixed-width integer types `sum` and `avg` work on.
#[derive(Debug, Clone, Copy, PartialEq, Eq, Structural)]
pub enum IntegerKind {
    Tinyint,
    Smallint,
    Int,
    Bigint,
    Counter,
}

/// The byte width of a kind.
pub open spec fn kind_width(k: IntegerKind) -> nat {
    match k {
        IntegerKind::Tinyint => 1,
        IntegerKind::Smallint => 2,
        IntegerKind::Int => 4,
        _ => 8,
    }
}

/// The decoding error prefix of a kind.
pub open spec fn kind_prefix(k: IntegerKind) -> Seq<char> {
    match k {
        IntegerKind::Tinyint => "invalid tinyint bytes: got "@,
        IntegerKind::Smallint => "invalid smallint bytes: got "@,
        IntegerKind::Int => "invalid int bytes: got "@,
        _ => "invalid bigint bytes: got "@,
    }
}

/// `x` wrapped into the signed range of `width` bytes.
pub open spec fn wrap_width(x: int, width: nat) -> int {
    let full = pow256(width) as int;
    (x + full / 2) % full - full / 2
}

/// The running state of a `sum`.
pub enum SumState {
    Fixed(IntegerKind, int),
    Varint(int),
    Unsupported(Seq<char>),
}

/// A running `sum` over one column. Integer totals wrap as the column type
/// does; `varint` totals are exact. Other types are refused with their name.
pub enum SumAccumulator {
    Tinyint(i8),
    Smallint(i16),
    Int(i32),
    Bigint(i64),
    Counter(i64),
    Varint(Vec<u8>),
    Unsupported(String),
}

impl View for SumAccumulator {
    type V = SumState;

    open spec fn view(&self) -> SumState {
        match self {
            SumAccumulator::Tinyint(t) => SumState::Fixed(IntegerKind::Tinyint, *t as int),
            SumAccumulator::Smallint(t) => SumState::Fixed(IntegerKind::Smallint, *t as int),
            SumAccumulator::Int(t) => SumState::Fixed(IntegerKind::Int, *t as int),
            SumAccumulator::Bigint(t) => SumState::Fixed(IntegerKind::Bigint, *t as int),
            SumAccumulator::Counter(t) => SumState::Fixed(IntegerKind::Counter, *t as int),
            SumAccumulator::Varint(b) => SumState::Varint(signed_be(b@)),
            SumAccumulator::Unsupported(n) => SumState::Unsupported(n@),
        }
    }
}

/// The integer kind of a column type, if `sum`/`avg` treat it as fixed-width.
pub open spec fn integer_kind(t: CqlType) -> Option<IntegerKind> {
    match t {
        CqlType::Tinyint => Some(IntegerKind::Tinyint),
        CqlType::Smallint => Some(IntegerKind::Smallint),
        CqlType::Int => Some(IntegerKind::Int),
        CqlType::Bigint => Some(IntegerKind::Bigint),
        CqlType::Counter => Some(IntegerKind::Counter),
        _ => None,
    }
}

/// Whether a type's sums and averages are floating-point (or decimal), which
/// this accumulator does not hold.
pub open spec fn fractional(t: CqlType) -> bool {
    t is Float || t is Double || t is Decimal
}

/// The state a new `sum` starts in.
pub open spec fn sum_start(t: CqlType, name: Seq<char>) -> SumState {
    match integer_kind(t) {
        Some(k) => SumState::Fixed(k, 0),
        None => if t is Varint { SumState::Varint(0) } else { SumState::Unsupported(name) },
    }
}

/// One step of a `sum`: the next state, or the error for the value.
pub open spec fn sum_step(st: SumState, value: Seq<u8>) -> Result<SumState, Seq<char>> {
    match st {
        SumState::Fixed(k, total) => match read_fixed(kind_prefix(k), kind_width(k), value) {
            Ok(v) => Ok(SumState::Fixed(k, wrap_width(total + v, kind_width(k)))),
            Err(e) => Err(e),
        },
        SumState::Varint(total) => Ok(SumState::Varint(total + signed_be(value))),
        SumState::Unsupported(n) => Err("unsupported sum type "@ + n),
    }
}

fn wrapped_add(total: i128, v: i128, width: usize) -> (r: i128)
    requires
        width == 1 || width == 2 || width == 4 || width == 8,
        -(pow256(width as nat) as int) / 2 <= total < (pow256(width as nat) as int) / 2,
        -(pow256(width as nat) as int) / 2 <= v < (pow256(width as nat) as int) / 2,
    ensures
        r == wrap_width(total + v, width as nat),
        -(pow256(width as nat) as int) / 2 <= r < (pow256(width as nat) as int) / 2,
{
    proof {
        reveal_with_fuel(pow256, 9);
    }
    let full: i128 = if width == 1 { 256 } else if width == 2 { 65536 } else if width == 4 { 0x1_0000_0000 } else { 0x1_0000_0000_0000_0000 };
    let half = full / 2;
    let x = total + v;
    let r = if x >= half { x - full } else if x < -half { x + full } else { x };
    proof {
        let f = full as int;
        let k: int = if x >= half { 1 } else if x < -half { -1 } else { 0 };
        assert((x + half) as int == f * k + (r + half) as int);
        vstd::arithmetic::div_mod::lemma_mod_multiples_vanish(k, (r + half) as int, f);
        vstd::arithmetic::div_mod::lemma_small_mod((r + half) as nat, f as nat);
    }
    r
}

fn unsupported(prefix: &str, name: &String) -> (r: String)
    ensures
        r@ == prefix@ + name@,
{
    let mut m = String::new();
    push_str(&mut m, prefix);
    push_str(&mut m, name.as_str());
    m
}

impl SumAccumulator {
    /// A new `sum` over a column of type `cql_type`, whose CQL name is `column_type_name`.
    pub fn new(cql_type: &CqlType, column_type_name: &str) -> (r: SumAccumulator)
        requires
            !fractional(*cql_type),
        ensures
            r@ == sum_start(*cql_type, column_type_name@),
    {
        match cql_type {
            CqlType::Tinyint => SumAccumulator::Tinyint(0),
            CqlType::Smallint => SumAccumulator::Smallint(0),
            CqlType::Int => SumAccumulator::Int(0),
            CqlType::Bigint => SumAccumulator::Bigint(0),
            CqlType::Counter => SumAccumulator::Counter(0),
            CqlType::Varint => {
                let z = bigint_zero();
                proof {
                    reveal_with_fuel(crate::numbers::unsigned_be, 2);
                    assert(z@.drop_last() =~= Seq::<u8>::empty());
                }
                SumAccumulator::Varint(z)
            },
            _ => {
                let mut n = String::new();
                push_str(&mut n, column_type_name);
                SumAccumulator::Unsupported(n)
            },
        }
    }

    /// Adds one non-null cell value.
    pub fn add(&mut self, value: &[u8]) -> (r: Result<(), String>)
        ensures
            match sum_step(old(self)@, value@) {
                Ok(st) => r is Ok && final(self)@ == st,
                Err(e) => (r matches Err(m) && m@ == e) && final(self)@ == old(self)@,
            },
    {
        proof {
            reveal_with_fuel(pow256, 9);
        }
        match self {
            SumAccumulator::Tinyint(total) => {
                let v = read_i8_value(value)?;
                *total = wrapped_add(*total as i128, v as i128, 1) as i8;
            },
            SumAccumulator::Smallint(total) => {
                let v = read_i16_value(value)?;
                *total = wrapped_add(*total as i128, v as i128, 2) as i16;
            },
            SumAccumulator::Int(total) => {
                let v = read_i32_value(value)?;
                *total = wrapped_add(*total as i128, v as i128, 4) as i32;
            },
            SumAccumulator::Bigint(total) => {
                let v = read_i64_value(value)?;
                *total = wrapped_add(*total as i128, v as i128, 8) as i64;
            },
            SumAccumulator::Counter(total) => {
                let v = read_i64_value(value)?;
                *total = wrapped_add(*total as i128, v as i128, 8) as i64;
            },
            SumAccumulator::Varint(total) => {
                let next = bigint_add(total.as_slice(), value);
                *total = next;
            },
            SumAccumulator::Unsupported(name) => {
                return Err(unsupported("unsupported sum type ", name));
            },
        }
        Ok(())
    }

    /// The total, encoded as the column type stores it.
    pub fn finalize(self) -> (r: Result<Vec<u8>, String>)
        ensures
            match self@ {
                SumState::Fixed(k, total) => r matches Ok(b) && b@ == be_bytes(total, kind_width(k)),
                SumState::Varint(total) => r matches Ok(b) && b@ == signed_bytes(total),
                SumState::Unsupported(n) => r matches Err(m) && m@ == "unsupported sum type "@ + n,
            },
    {
        match self {
            SumAccumulator::Tinyint(t) => Ok(be_bytes_wrapping(t as i128, 1)),
            SumAccumulator::Smallint(t) => Ok(be_bytes_wrapping(t as i128, 2)),
            SumAccumulator::Int(t) => Ok(be_bytes_wrapping(t as i128, 4)),
            SumAccumulator::Bigint(t) => Ok(be_bytes_wrapping(t as i128, 8)),
            SumAccumulator::Counter(t) => Ok(be_bytes_wrapping(t as i128, 8)),
            SumAccumulator::Varint(b) => Ok(bigint_normalize(b.as_slice())),
            SumAccumulator::Unsupported(name) => Err(unsupported("unsupported sum type ", &name)),
        }
    }
}

// ─── avg ────────────────────────────────────────────────────────────────

/// The integer average of a sum over `count` values (truncated toward zero),
/// wrapped to 128 bits; 0 when there are no values.
pub open spec fn average(sum: int, count: int) -> int {
    if count == 0 { 0 } else { wrap128(trunc_div(sum, count)) }
}

/// The integer average of `sum` (two's-complement bytes) over `count` values.
pub fn bigint_avg(sum: &[u8], count: i64) -> (r: i128)
    ensures
        r == average(signed_be(sum@), count as int),
{
    if count == 0 {
        return 0;
    }
    let quotient = bigint_div(sum, count);
    i128_from_be(quotient.as_slice())
}

/// The running state of an `avg`: exact sum and number of values.
pub enum AvgState {
    Fixed(IntegerKind, int, int),
    Varint(int, int),
    Unsupported(Seq<char>),
}

/// A running `avg` over one column: the exact sum and the count.
pub enum AvgAccumulator {
    Tinyint { sum: Vec<u8>, count: i64 },
    Smallint { sum: Vec<u8>, count: i64 },
    Int { sum: Vec<u8>, count: i64 },
    Bigint { sum: Vec<u8>, count: i64 },
    Counter { sum: Vec<u8>, count: i64 },
    Varint { sum: Vec<u8>, count: i64 },
    Unsupported(String),
}

impl View for AvgAccumulator {
    type V = AvgState;

    open spec fn view(&self) -> AvgState {
        match self {
            AvgAccumulator::Tinyint { sum, count } => AvgState::Fixed(IntegerKind::Tinyint, signed_be(sum@), *count as int),
            AvgAccumulator::Smallint { sum, count } => AvgState::Fixed(IntegerKind::Smallint, signed_be(sum@), *count as int),
            AvgAccumulator::Int { sum, count } => AvgState::Fixed(IntegerKind::Int, signed_be(sum@), *count as int),
            AvgAccumulator::Bigint { sum, count } => AvgState::Fixed(IntegerKind::Bigint, signed_be(sum@), *count as int),
            AvgAccumulator::Counter { sum, count } => AvgState::Fixed(IntegerKind::Counter, signed_be(sum@), *count as int),
            AvgAccumulator::Varint { sum, count } => AvgState::Varint(signed_be(sum@), *count as int),
            AvgAccumulator::Unsupported(n) => AvgState::Unsupported(n@),
        }
    }
}

/// The state a new `avg` starts in.
pub open spec fn avg_start(t: CqlType, name: Seq<char>) -> AvgState {
    match integer_kind(t) {
        Some(k) => AvgState::Fixed(k, 0, 0),
        None => if t is Varint { AvgState::Varint(0, 0) } else { AvgState::Unsupported(name) },
    }
}

/// Whether one more value can be counted.
pub open spec fn avg_has_room(st: AvgState) -> bool {
    match st {
        AvgState::Fixed(_, _, c) => c < i64::MAX,
        AvgState::Varint(_, c) => c < i64::MAX,
        AvgState::Unsupported(_) => true,
    }
}

/// One step of an `avg`.
pub open spec fn avg_step(st: AvgState, value: Seq<u8>) -> Result<AvgState, Seq<char>> {
    match st {
        AvgState::Fixed(k, sum, count) => match read_fixed(kind_prefix(k), kind_width(k), value) {
            Ok(v) => Ok(AvgState::Fixed(k, sum + v, count + 1)),
            Err(e) => Err(e),
        },
        AvgState::Varint(sum, count) => Ok(AvgState::Varint(sum + signed_be(value), count + 1)),
        AvgState::Unsupported(n) => Err("unsupported avg type "@ + n),
    }
}

impl AvgAccumulator {
    /// A new `avg` over a column of type `cql_type`, whose CQL name is `column_type_name`.
    pub fn new(cql_type: &CqlType, column_type_name: &str) -> (r: AvgAccumulator)
        requires
            !fractional(*cql_type),
        ensures
            r@ == avg_start(*cql_type, column_type_name@),
    {
        let zero = bigint_zero();
        proof {
            reveal_with_fuel(crate::numbers::unsigned_be, 2);
            assert(zero@.drop_last() =~= Seq::<u8>::empty());
        }
        match cql_type {
            CqlType::Tinyint => AvgAccumulator::Tinyint { sum: zero, count: 0 },
            CqlType::Smallint => AvgAccumulator::Smallint { sum: zero, count: 0 },
            CqlType::Int => AvgAccumulator::Int { sum: zero, count: 0 },
            CqlType::Bigint => AvgAccumulator::Bigint { sum: zero, count: 0 },
            CqlType::Counter => AvgAccumulator::Counter { sum: zero, count: 0 },
            CqlType::Varint => AvgAccumulator::Varint { sum: zero, count: 0 },
            _ => {
                let mut n = String::new();
                push_str(&mut n, column_type_name);
                AvgAccumulator::Unsupported(n)
            },
        }
    }

    /// Adds one non-null cell value.
    pub fn add(&mut self, value: &[u8]) -> (r: Result<(), String>)
        requires
            avg_has_room(old(self)@),
        ensures
            match avg_step(old(self)@, value@) {
                Ok(st) => r is Ok && final(self)@ == st,
                Err(e) => (r matches Err(m) && m@ == e) && final(self)@ == old(self)@,
            },
    {
        match self {
            AvgAccumulator::Tinyint { sum, count } => {
                let v = read_i8_value(value)?;
                let b = bigint_from_i64(v as i64);
                *sum = bigint_add(sum.as_slice(), b.as_slice());
                *count = *count + 1;
            },
            AvgAccumulator::Smallint { sum, count } => {
                let v = read_i16_value(value)?;
                let b = bigint_from_i64(v as i64);
                *sum = bigint_add(sum.as_slice(), b.as_slice());
                *count = *count + 1;
            },
            AvgAccumulator::Int { sum, count } => {
                let v = read_i32_value(value)?;
                let b = bigint_from_i64(v as i64);
                *sum = bigint_add(sum.as_slice(), b.as_slice());
                *count = *count + 1;
            },
            AvgAccumulator::Bigint { sum, count } => {
                let v = read_i64_value(value)?;
                let b = bigint_from_i64(v);
                *sum = bigint_add(sum.as_slice(), b.as_slice());
                *count = *count + 1;
            },
            AvgAccumulator::Counter { sum, count } => {
                let v = read_i64_value(value)?;
                let b = bigint_from_i64(v);
                *sum = bigint_add(sum.as_slice(), b.as_slice());
                *count = *count + 1;
            },
            AvgAccumulator::Varint { sum, count } => {
                *sum = bigint_add(sum.as_slice(), value);
                *count = *count + 1;
            },
            AvgAccumulator::Unsupported(name) => {
                return Err(unsupported("unsupported avg type ", name));
            },
        }
        Ok(())
    }

    /// The average, encoded as the column type stores it: the integer average
    /// wrapped to the column's width; for `varint` the exact quotient.
    pub fn finalize(self) -> (r: Result<Vec<u8>, String>)
        ensures
            match self@ {
                AvgState::Fixed(k, sum, count) => r matches Ok(b) && b@ == be_bytes(average(sum, count), kind_width(k)),
                AvgState::Varint(sum, count) => r matches Ok(b) && b@ == signed_bytes(if count == 0 { 0 } else { trunc_div(sum, count) }),
                AvgState::Unsupported(n) => r matches Err(m) && m@ == "unsupported avg type "@ + n,
            },
    {
        match self {
            AvgAccumulator::Tinyint { sum, count } => Ok(be_bytes_wrapping(bigint_avg(sum.as_slice(), count), 1)),
            AvgAccumulator::Smallint { sum, count } => Ok(be_bytes_wrapping(bigint_avg(sum.as_slice(), count), 2)),
            AvgAccumulator::Int { sum, count } => Ok(be_bytes_wrapping(bigint_avg(sum.as_slice(), count), 4)),
            AvgAccumulator::Bigint { sum, count } => Ok(be_bytes_wrapping(bigint_avg(sum.as_slice(), count), 8)),
            AvgAccumulator::Counter { sum, count } => Ok(be_bytes_wrapping(bigint_avg(sum.as_slice(), count), 8)),
            AvgAccumulator::Varint { sum, count } => {
                if count == 0 {
                    let z = bigint_zero();
                    assert(z@ =~= signed_bytes(0));
                    Ok(z)
                } else {
                    Ok(bigint_div(sum.as_slice(), count))
                }
            },
            AvgAccumulator::Unsupported(name) => Err(unsupported("unsupported avg type ", &name)),
        }
    }
}

// ─── aggregate state of one selector ────────────────────────────────────

/// The running state of one aggregate selector.
pub enum AggregateState {
    /// A plain column in an aggregate query: keeps the last non-null value seen.
    PassThrough { value: Option<Vec<u8>> },
    /// `count(*)` counts rows; `count(x)` counts rows where some argument is set.
    Count { count: i64, count_non_null: bool },
    Sum { accumulator: SumAccumulator },
    Avg { accumulator: AvgAccumulator },
}

/// The first argument value of a row, when it is set.
pub open spec fn first_value(values: Seq<Option<Vec<u8>>>) -> Option<Seq<u8>> {
    if values.len() > 0 {
        match values[0] {
            Some(v) => Some(v@),
            None => None,
        }
    } else {
        None
    }
}

/// Whether some argument value of a row is set.
pub open spec fn any_set(values: Seq<Option<Vec<u8>>>) -> bool {
    exists|i: int| 0 <= i < values.len() && #[trigger] values[i] is Some
}

/// Whether a row can be accumulated without overflowing a counter.
pub open spec fn state_has_room(st: AggregateState) -> bool {
    match st {
        AggregateState::Count { count, .. } => count < i64::MAX,
        AggregateState::Avg { accumulator } => avg_has_room(accumulator@),
        _ => true,
    }
}

/// The views of the parts of an aggregate state.
pub open spec fn opt_bytes(v: Option<Vec<u8>>) -> Option<Seq<u8>> {
    match v {
        Some(b) => Some(b@),
        None => None,
    }
}

impl AggregateState {
    /// Accumulates one row's argument values.
    pub fn accumulate(&mut self, values: &[Option<Vec<u8>>]) -> (r: Result<(), ExecutorError>)
        requires
            state_has_room(*old(self)),
        ensures
            match *old(self) {
                AggregateState::PassThrough { value } => r is Ok && (*final(self) matches AggregateState::PassThrough { value: nv }
                    && opt_bytes(nv) == (match first_value(values@) { Some(v) => Some(v), None => opt_bytes(value) })),
                AggregateState::Count { count, count_non_null } => r is Ok && (*final(self) matches AggregateState::Count { count: nc, count_non_null: nn }
                    && nn == count_non_null
                    && nc == (if !count_non_null || any_set(values@) { count + 1 } else { count as int })),
                AggregateState::Sum { accumulator } => *final(self) matches AggregateState::Sum { accumulator: na }
                    && match first_value(values@) {
                        None => r is Ok && na@ == accumulator@,
                        Some(v) => match sum_step(accumulator@, v) {
                            Ok(st) => r is Ok && na@ == st,
                            Err(e) => (r matches Err(ExecutorError::InvalidQuery(m)) && m@ == e) && na@ == accumulator@,
                        },
                    },
                AggregateState::Avg { accumulator } => *final(self) matches AggregateState::Avg { accumulator: na }
                    && match first_value(values@) {
                        None => r is Ok && na@ == accumulator@,
                        Some(v) => match avg_step(accumulator@, v) {
                            Ok(st) => r is Ok && na@ == st,
                            Err(e) => (r matches Err(ExecutorError::InvalidQuery(m)) && m@ == e) && na@ == accumulator@,
                        },
                    },
            },
    {
        let first: Option<&Vec<u8>> = if values.len() > 0 {
            match &values[0] {
                Some(v) => Some(v),
                None => None,
            }
        } else {
            None
        };
        assert(match first { Some(v) => Some(v@), None => None::<Seq<u8>> } == first_value(values@));
        match self {
            AggregateState::PassThrough { value: stored } => {
                if let Some(v) = first {
                    *stored = Some(v.clone());
                }
                Ok(())
            },
            AggregateState::Count { count, count_non_null } => {
                let mut some = false;
                let mut i: usize = 0;
                while i < values.len()
                    invariant
                        i <= values@.len(),
                        some == (exists|j: int| 0 <= j < i && #[trigger] values@[j] is Some),
                    decreases values.len() - i,
                {
                    if values[i].is_some() {
                        some = true;
                    }
                    i = i + 1;
                }
                if !*count_non_null || some {
                    *count = *count + 1;
                }
                Ok(())
            },
            AggregateState::Sum { accumulator } => {
                if let Some(v) = first {
                    match accumulator.add(v.as_slice()) {
                        Ok(()) => Ok(()),
                        Err(m) => Err(ExecutorError::InvalidQuery(m)),
                    }
                } else {
                    Ok(())
                }
            },
            AggregateState::Avg { accumulator } => {
                if let Some(v) = first {
                    match accumulator.add(v.as_slice()) {
                        Ok(()) => Ok(()),
                        Err(m) => Err(ExecutorError::InvalidQuery(m)),
                    }
                } else {
                    Ok(())
                }
            },
        }
    }

    /// The aggregate's value: the kept value, the count as a `bigint`, or the
    /// encoded sum or average.
    pub fn finalize(self) -> (r: Result<Option<Vec<u8>>, ExecutorError>)
        ensures
            match self {
                AggregateState::PassThrough { value } => r matches Ok(v) && opt_bytes(v) == opt_bytes(value),
                AggregateState::Count { count, .. } => r matches Ok(Some(b)) && b@ == be_bytes(count as int, 8),
                AggregateState::Sum { accumulator } => match accumulator@ {
                    SumState::Fixed(k, total) => r matches Ok(Some(b)) && b@ == be_bytes(total, kind_width(k)),
                    SumState::Varint(total) => r matches Ok(Some(b)) && b@ == signed_bytes(total),
                    SumState::Unsupported(n) => r matches Err(ExecutorError::InvalidQuery(m)) && m@ == "unsupported sum type "@ + n,
                },
                AggregateState::Avg { accumulator } => match accumulator@ {
                    AvgState::Fixed(k, sum, count) => r matches Ok(Some(b)) && b@ == be_bytes(average(sum, count), kind_width(k)),
                    AvgState::Varint(sum, count) => r matches Ok(Some(b)) && b@ == signed_bytes(if count == 0 { 0 } else { trunc_div(sum, count) }),
                    AvgState::Unsupported(n) => r matches Err(ExecutorError::InvalidQuery(m)) && m@ == "unsupported avg type "@ + n,
                },
            },
    {
        match self {
            AggregateState::PassThrough { value } => Ok(value),
            AggregateState::Count { count, .. } => {
                proof {
                    reveal_with_fuel(pow256, 9);
                }
                Ok(Some(be_bytes_exec(count as i128, 8)))
            },
            AggregateState::Sum { accumulator } => match accumulator.finalize() {
                Ok(b) => Ok(Some(b)),
                Err(m) => Err(ExecutorError::InvalidQuery(m)),
            },
            AggregateState::Avg { accumulator } => match accumulator.finalize() {
                Ok(b) => Ok(Some(b)),
                Err(m) => Err(ExecutorError::InvalidQuery(m)),
            },
        }
    }
}

// ─── laws of the averages ───────────────────────────────────────────────

/// The smallest value of a kind.
pub open spec fn kind_low(k: IntegerKind) -> int {
    -(pow256(kind_width(k)) as int) / 2
}

/// The largest value of a kind.
pub open spec fn kind_high(k: IntegerKind) -> int {
    (pow256(kind_width(k)) as int) / 2 - 1
}

/// Whether an average's sum is what `count` values of its kind can add up to.
pub open spec fn avg_sum_in_bounds(st: AvgState) -> bool {
    match st {
        AvgState::Fixed(k, sum, count) => count >= 0 && count * kind_low(k) <= sum <= count * kind_high(k),
        _ => true,
    }
}

proof fn lemma_kind_bounds(k: IntegerKind)
    ensures
        -0x8000_0000_0000_0000 <= kind_low(k) < 0,
        0 < kind_high(k) <= 0x7fff_ffff_ffff_ffff,
{
    reveal_with_fuel(pow256, 9);
}

/// A new average starts within bounds, and adding a value keeps it there.
pub proof fn lemma_avg_step_keeps_bounds(st: AvgState, value: Seq<u8>)
    requires
        avg_sum_in_bounds(st),
        avg_step(st, value) is Ok,
    ensures
        avg_sum_in_bounds(avg_step(st, value)->Ok_0),
{
    if let AvgState::Fixed(k, sum, count) = st {
        let w = kind_width(k);
        lemma_range(w, value);
        reveal_with_fuel(pow256, 9);
        let v = signed_be(value);
        assert((count + 1) * kind_low(k) == count * kind_low(k) + kind_low(k)) by (nonlinear_arith);
        assert((count + 1) * kind_high(k) == count * kind_high(k) + kind_high(k)) by (nonlinear_arith);
    }
}

/// The average of values of an integer column type is a value of that type,
/// so the final conversion to the column's width keeps it exactly.
pub proof fn lemma_average_in_range(k: IntegerKind, sum: int, count: int)
    requires
        1 <= count <= i64::MAX,
        count * kind_low(k) <= sum <= count * kind_high(k),
    ensures
        average(sum, count) == trunc_div(sum, count),
        kind_low(k) <= average(sum, count) <= kind_high(k),
{
    lemma_kind_bounds(k);
    let lo = kind_low(k);
    let hi = kind_high(k);
    let q = trunc_div(sum, count);
    if sum >= 0 {
        assert(q == sum / count);
        assert(sum / count <= hi) by (nonlinear_arith) requires sum <= count * hi, count >= 1;
        assert(sum / count >= 0) by (nonlinear_arith) requires sum >= 0, count >= 1;
    } else {
        assert(q == -((-sum) / count));
        assert(count * (-lo) == -(count * lo)) by (nonlinear_arith);
        assert((-sum) / count <= -lo) by (nonlinear_arith) requires -sum <= count * (-lo), count >= 1;
        assert((-sum) / count >= 0) by (nonlinear_arith) requires -sum >= 0, count >= 1;
    }
    crate::numbers::lemma_wrap128_of(q, q, 0);
}

} // verus!

//! Big-endian two's-complement encodings of integers, as CQL stores them.
use vstd::prelude::*;
use crate::text::{push_str, push_decimal_u64};

verus! {

broadcast use vstd::seq_lib::group_seq_properties;

/// `256^n`.
pub open spec fn pow256(n: nat) -> nat
    decreases n,
{
    if n == 0 { 1 } else { 256 * pow256((n - 1) as nat) }
}

/// The unsigned number whose big-endian bytes are `b`.
pub open spec fn unsigned_be(b: Seq<u8>) -> nat
    decreases b.len(),
{
    if b.len() == 0 { 0 } else { unsigned_be(b.drop_last()) * 256 + (b.last() as nat) }
}

/// The number whose big-endian two's-complement bytes are `b` (0 for no bytes).
pub open spec fn signed_be(b: Seq<u8>) -> int {
    if b.len() > 0 && b[0] >= 128 {
        unsigned_be(b) - pow256(b.len())
    } else {
        unsigned_be(b) as int
    }
}

/// The shortest big-endian two's-complement bytes of `v`: one byte for
/// -128..=127, and one more byte for each further factor of 256.
pub open spec fn signed_bytes(v: int) -> Seq<u8>
    decreases (if v < 0 { -v } else { v }),
{
    if -128 <= v < 128 {
        seq![(v % 256) as u8]
    } else {
        proof {
            assert(if v / 256 < 0 { -(v / 256) < -v } else { v / 256 < v }) by (nonlinear_arith)
                requires
                    !(-128 <= v < 128),
            ;
        }
        signed_bytes(v / 256).push((v % 256) as u8)
    }
}

/// The shortest encoding reads back as its number, and its first byte has
/// the sign bit set exactly for negative numbers.
pub broadcast proof fn lemma_signed_bytes(v: int)
    ensures
        #[trigger] signed_bytes(v).len() >= 1,
        signed_be(signed_bytes(v)) == v,
        (signed_bytes(v)[0] >= 128) == (v < 0),
    decreases (if v < 0 { -v } else { v }),
{
    let b = signed_bytes(v);
    if -128 <= v < 128 {
        assert(b.drop_last() =~= Seq::<u8>::empty());
        assert(0 <= v % 256 < 256);
        assert(b.last() as int == v % 256);
        assert(unsigned_be(b.drop_last()) == 0);
        assert(unsigned_be(b) == (v % 256) as nat);
        assert(pow256(1) == 256) by {
            reveal_with_fuel(pow256, 2);
        }
    } else {
        let q = v / 256;
        let r = v % 256;
        assert(if q < 0 { -q < -v } else { q < v }) by (nonlinear_arith)
            requires
                !(-128 <= v < 128),
                q == v / 256,
        ;
        lemma_signed_bytes(q);
        let bq = signed_bytes(q);
        let n = bq.len();
        assert(b.drop_last() =~= bq);
        assert(b[0] == bq[0]);
        assert(unsigned_be(b) == unsigned_be(bq) * 256 + r);
        assert(pow256(n + 1) == 256 * pow256(n));
        assert(v == 256 * q + r) by (nonlinear_arith)
            requires
                q == v / 256,
                r == v % 256,
        ;
        if q < 0 {
            assert(unsigned_be(bq) == q + pow256(n));
            assert(unsigned_be(b) - pow256(n + 1) == v) by (nonlinear_arith)
                requires
                    unsigned_be(b) == unsigned_be(bq) * 256 + r,
                    unsigned_be(bq) == q + pow256(n),
                    pow256(n + 1) == 256 * pow256(n),
                    v == 256 * q + r,
            ;
            assert(v < 0) by (nonlinear_arith)
                requires
                    v == 256 * q + r,
                    q < 0,
                    r < 256,
            ;
        } else {
            assert(v >= 0) by (nonlinear_arith)
                requires
                    v == 256 * q + r,
                    q >= 0,
                    r >= 0,
            ;
        }
    }
}

/// The `n` big-endian bytes of the non-negative `w < 256^n`.
pub open spec fn unsigned_bytes(w: nat, n: nat) -> Seq<u8>
    decreases n,
{
    if n == 0 { seq![] } else { unsigned_bytes(w / 256, (n - 1) as nat).push((w % 256) as u8) }
}

/// The `n` big-endian two's-complement bytes of `v` (taken modulo `256^n`).
pub open spec fn be_bytes(v: int, n: nat) -> Seq<u8> {
    unsigned_bytes((v % (pow256(n) as int)) as nat, n)
}

pub proof fn lemma_pow256_positive(n: nat)
    ensures
        pow256(n) > 0,
    decreases n,
{
    if n > 0 {
        lemma_pow256_positive((n - 1) as nat);
    }
}

pub proof fn lemma_pow256_add(a: nat, b: nat)
    ensures
        pow256(a + b) == pow256(a) * pow256(b),
    decreases b,
{
    if b > 0 {
        lemma_pow256_add(a, (b - 1) as nat);
        let pa = pow256(a);
        let pb1 = pow256((b - 1) as nat);
        let pab1 = pow256((a + b - 1) as nat);
        assert(pow256(a + b) == 256 * pab1);
        assert(pow256(b) == 256 * pb1);
        assert(pab1 == pa * pb1);
        assert(256 * (pa * pb1) == pa * (256 * pb1)) by (nonlinear_arith);
        assert(pow256(a + b) == pa * pow256(b));
    } else {
        assert(pow256(b) == 1);
        assert(a + b == a);
        assert(pow256(a) * 1 == pow256(a));
    }
}

/// The unsigned value of `b` is below `256^len`.
pub proof fn lemma_unsigned_be_bound(b: Seq<u8>)
    ensures
        unsigned_be(b) < pow256(b.len()),
    decreases b.len(),
{
    if b.len() > 0 {
        lemma_unsigned_be_bound(b.drop_last());
        let u = unsigned_be(b.drop_last());
        let p = pow256((b.len() - 1) as nat);
        assert(u * 256 + b.last() < p * 256) by (nonlinear_arith)
            requires u < p, b.last() < 256;
    }
}

/// Splitting bytes: the value of `a + c` is `a` shifted past `c`, plus `c`.
pub proof fn lemma_unsigned_be_concat(a: Seq<u8>, c: Seq<u8>)
    ensures
        unsigned_be(a + c) == unsigned_be(a) * pow256(c.len()) + unsigned_be(c),
    decreases c.len(),
{
    if c.len() == 0 {
        assert(a + c =~= a);
        assert(unsigned_be(a) * pow256(0) == unsigned_be(a) * 1);
    } else {
        lemma_unsigned_be_concat(a, c.drop_last());
        let ac = a + c;
        assert(ac.drop_last() =~= a + c.drop_last());
        assert(ac.last() == c.last());
        let x = unsigned_be(a);
        let p = pow256((c.len() - 1) as nat);
        let y = unsigned_be(c.drop_last());
        let l = c.last() as nat;
        assert(unsigned_be(ac) == unsigned_be(ac.drop_last()) * 256 + l);
        assert(unsigned_be(ac.drop_last()) == x * p + y);
        assert(unsigned_be(c) == y * 256 + l);
        assert(pow256(c.len()) == 256 * p);
        assert((x * p + y) * 256 + l == x * (256 * p) + (y * 256 + l)) by (nonlinear_arith);
    }
}

/// The value of big-endian bytes read from a slice of length `n`.
pub proof fn lemma_unsigned_bytes_value(w: nat, n: nat)
    requires
        w < pow256(n),
    ensures
        unsigned_bytes(w, n).len() == n,
        unsigned_be(unsigned_bytes(w, n)) == w,
    decreases n,
{
    if n > 0 {
        let p = pow256((n - 1) as nat);
        assert(w / 256 < p) by (nonlinear_arith) requires w < 256 * p;
        lemma_unsigned_bytes_value(w / 256, (n - 1) as nat);
        let b = unsigned_bytes(w, n);
        assert(b.drop_last() =~= unsigned_bytes(w / 256, (n - 1) as nat));
        assert((w / 256) * 256 + w % 256 == w) by (nonlinear_arith);
    }
}

/// Decodes big-endian unsigned bytes (at most eight).
pub fn read_unsigned_be(value: &[u8]) -> (r: u128)
    requires
        value@.len() <= 8,
    ensures
        r == unsigned_be(value@),
        r < pow256(value@.len()),
{
    let n = value.len();
    let mut acc: u128 = 0;
    let mut i: usize = 0;
    proof {
        lemma_pow256_small(0);
        assert(value@.subrange(0, 0) =~= Seq::<u8>::empty());
    }
    while i < n
        invariant
            n == value@.len(),
            n <= 8,
            i <= n,
            acc == unsigned_be(value@.subrange(0, i as int)),
            acc < pow256(i as nat),
            pow256(8) == 0x1_0000_0000_0000_0000,
        decreases n - i,
    {
        proof {
            lemma_pow_monotone(i as nat, 8);
            assert(value@.subrange(0, i + 1).drop_last() =~= value@.subrange(0, i as int));
            assert(acc * 256 + 255 < 0x1_0000_0000_0000_0000_0000) by (nonlinear_arith)
                requires acc < 0x1_0000_0000_0000_0000;
        }
        acc = acc * 256 + value[i] as u128;
        i = i + 1;
        proof {
            lemma_unsigned_be_bound(value@.subrange(0, i as int));
        }
    }
    assert(value@.subrange(0, n as int) =~= value@);
    acc
}

/// Decodes big-endian two's-complement bytes (at most eight).
pub fn read_be(value: &[u8]) -> (r: i128)
    requires
        1 <= value@.len() <= 8,
    ensures
        r == signed_be(value@),
{
    let n = value.len();
    let acc = read_unsigned_be(value);
    proof {
        lemma_pow256_small(0);
        lemma_pow_monotone(n as nat, 8);
    }
    if value[0] >= 128 {
        (acc as i128) - (pow_u128(n) as i128)
    } else {
        acc as i128
    }
}

/// The first powers of 256.
pub proof fn lemma_pow256_small(n: nat)
    ensures
        pow256(0) == 1,
        pow256(1) == 256,
        pow256(2) == 65536,
        pow256(4) == 0x1_0000_0000,
        pow256(8) == 0x1_0000_0000_0000_0000,
{
    reveal_with_fuel(pow256, 9);
    assert(pow256(1) == 256);
    assert(pow256(2) == 65536);
    assert(pow256(3) == 0x100_0000);
    assert(pow256(4) == 0x1_0000_0000);
    assert(pow256(5) == 0x100_0000_0000);
    assert(pow256(6) == 0x1_0000_0000_0000);
    assert(pow256(7) == 0x100_0000_0000_0000);
    assert(pow256(8) == 0x1_0000_0000_0000_0000);
}

proof fn lemma_pow_monotone(a: nat, b: nat)
    requires
        a <= b,
    ensures
        pow256(a) <= pow256(b),
    decreases b - a,
{
    if a < b {
        lemma_pow_monotone(a, (b - 1) as nat);
        lemma_pow256_positive((b - 1) as nat);
    }
}

fn pow_u128(n: usize) -> (r: u128)
    requires
        n <= 8,
    ensures
        r == pow256(n as nat),
{
    let mut r: u128 = 1;
    let mut i: usize = 0;
    proof {
        lemma_pow256_small(0);
    }
    while i < n
        invariant
            i <= n,
            n <= 8,
            r == pow256(i as nat),
            r <= pow256(8),
        decreases n - i,
    {
        proof {
            lemma_pow256_small(0);
            lemma_pow_monotone(i as nat + 1, 8);
        }
        r = r * 256;
        i = i + 1;
    }
    r
}

/// The byte that extends `b` to the left without changing its signed value.
pub open spec fn sign_fill(b: Seq<u8>) -> u8 {
    if b.len() > 0 && b[0] >= 128 { 255 } else { 0 }
}

/// `b` fitted to 16 bytes: sign-extended when shorter, its last 16 bytes when longer.
pub open spec fn fit16(b: Seq<u8>) -> Seq<u8> {
    if b.len() >= 16 {
        b.subrange(b.len() - 16, b.len() as int)
    } else {
        Seq::new((16 - b.len()) as nat, |i: int| sign_fill(b)) + b
    }
}

/// The `i128` congruent to `x` modulo `2^128`.
pub open spec fn wrap128(x: int) -> int {
    (x + 0x8000_0000_0000_0000_0000_0000_0000_0000int) % 0x1_0000_0000_0000_0000_0000_0000_0000_0000int
        - 0x8000_0000_0000_0000_0000_0000_0000_0000int
}

proof fn lemma_unsigned_single(f: u8)
    ensures
        unsigned_be(seq![f]) == f,
{
    reveal_with_fuel(unsigned_be, 2);
    assert(seq![f].drop_last() =~= Seq::<u8>::empty());
}

proof fn lemma_pow256_wide()
    ensures
        pow256(15) == 0x1_00_0000_0000_0000_0000_0000_0000_0000int,
        pow256(16) == 0x1_0000_0000_0000_0000_0000_0000_0000_0000int,
{
    reveal_with_fuel(pow256, 17);
}

/// Sixteen bytes hold a signed value in the `i128` range.
proof fn lemma_signed16_range(p: Seq<u8>)
    requires
        p.len() == 16,
    ensures
        -0x8000_0000_0000_0000_0000_0000_0000_0000int <= signed_be(p) < 0x8000_0000_0000_0000_0000_0000_0000_0000int,
        p[0] >= 128 <==> unsigned_be(p) >= 0x8000_0000_0000_0000_0000_0000_0000_0000int,
{
    lemma_pow256_wide();
    let rest = p.subrange(1, 16);
    assert(p =~= seq![p[0]] + rest);
    lemma_unsigned_be_concat(seq![p[0]], rest);
    lemma_unsigned_single(p[0]);
    lemma_unsigned_be_bound(rest);
    lemma_unsigned_be_bound(p);
    let p0 = p[0] as int;
    let r = unsigned_be(rest) as int;
    let big: int = 0x1_00_0000_0000_0000_0000_0000_0000_0000int;
    assert(unsigned_be(p) == p0 * big + r);
    assert(p0 >= 128 ==> p0 * big + r >= 128 * big) by (nonlinear_arith)
        requires r >= 0, big > 0;
    if p0 < 128 {
        assert(p0 * big <= 127 * big) by (nonlinear_arith)
            requires p0 <= 127, big > 0;
    }
}

/// One sign byte in front does not change the signed value.
pub proof fn lemma_sign_extend_one(b: Seq<u8>)
    requires
        b.len() > 0,
    ensures
        signed_be(seq![sign_fill(b)] + b) == signed_be(b),
        sign_fill(seq![sign_fill(b)] + b) == sign_fill(b),
{
    let f = sign_fill(b);
    lemma_unsigned_be_concat(seq![f], b);
    lemma_unsigned_single(f);
    let e = seq![f] + b;
    let pp = pow256(b.len());
    let u = unsigned_be(b);
    assert(e.len() == b.len() + 1);
    assert(e[0] == f);
    assert(pow256(e.len()) == 256 * pp);
    assert(unsigned_be(e) == f * pp + u);
    if b[0] >= 128 {
        assert(f == 255);
        assert(signed_be(e) == 255 * pp + u - 256 * pp);
        assert(signed_be(b) == u - pp);
    } else {
        assert(f == 0);
        assert(unsigned_be(e) == u);
    }
}

/// Any number of sign bytes in front do not change the signed value.
pub proof fn lemma_sign_extend(b: Seq<u8>, k: nat)
    requires
        b.len() > 0,
    ensures
        signed_be(Seq::new(k, |i: int| sign_fill(b)) + b) == signed_be(b),
    decreases k,
{
    if k > 0 {
        lemma_sign_extend(b, (k - 1) as nat);
        let shorter = Seq::new((k - 1) as nat, |i: int| sign_fill(b)) + b;
        let longer = Seq::new(k, |i: int| sign_fill(b)) + b;
        assert(sign_fill(shorter) == sign_fill(b)) by {
            if k - 1 > 0 {
                assert(shorter[0] == sign_fill(b));
            } else {
                assert(shorter =~= b);
            }
        }
        assert(longer =~= seq![sign_fill(shorter)] + shorter);
        lemma_sign_extend_one(shorter);
    } else {
        assert(Seq::new(0, |i: int| sign_fill(b)) + b =~= b);
    }
}

/// `x` and `x + k * 2^128` wrap to the same `i128`, which is `y` itself when
/// `y` is in range.
pub proof fn lemma_wrap128_of(x: int, y: int, k: int)
    requires
        -0x8000_0000_0000_0000_0000_0000_0000_0000int <= y < 0x8000_0000_0000_0000_0000_0000_0000_0000int,
        x == y + k * 0x1_0000_0000_0000_0000_0000_0000_0000_0000int,
    ensures
        wrap128(x) == y,
{
    let m: int = 0x1_0000_0000_0000_0000_0000_0000_0000_0000int;
    let h: int = 0x8000_0000_0000_0000_0000_0000_0000_0000int;
    vstd::arithmetic::div_mod::lemma_mod_multiples_vanish(k, y + h, m);
    assert(m * k + (y + h) == x + h) by (nonlinear_arith)
        requires x == y + k * m;
    vstd::arithmetic::div_mod::lemma_small_mod((y + h) as nat, m as nat);
}

/// The signed value of the 16 fitted bytes is the `i128` the value wraps to.
pub proof fn lemma_fit16(b: Seq<u8>)
    requires
        b.len() > 0,
    ensures
        fit16(b).len() == 16,
        signed_be(fit16(b)) == wrap128(signed_be(b)),
        -0x8000_0000_0000_0000_0000_0000_0000_0000int <= signed_be(fit16(b)) < 0x8000_0000_0000_0000_0000_0000_0000_0000int,
{
    let p = fit16(b);
    lemma_pow256_wide();
    let m: int = 0x1_0000_0000_0000_0000_0000_0000_0000_0000int;
    assert(pow256(16) == m);
    lemma_unsigned_be_bound(p);
    lemma_signed16_range(p);
    if b.len() >= 16 {
        let pre = b.subrange(0, b.len() - 16);
        assert(b =~= pre + p);
        lemma_unsigned_be_concat(pre, p);
        lemma_pow256_add((b.len() - 16) as nat, 16);
        let up = unsigned_be(pre) as int;
        let sp: int = if b[0] >= 128 { pow256((b.len() - 16) as nat) as int } else { 0 };
        let tp: int = if p[0] >= 128 { 1 } else { 0 };
        assert(signed_be(b) == up * m + unsigned_be(p) - sp * m) by (nonlinear_arith)
            requires
                signed_be(b) == unsigned_be(b) - (if b[0] >= 128 { pow256(b.len()) as int } else { 0 }),
                unsigned_be(b) == up * m + unsigned_be(p),
                pow256(b.len()) == pow256((b.len() - 16) as nat) * m,
                sp == (if b[0] >= 128 { pow256((b.len() - 16) as nat) as int } else { 0 });
        assert(signed_be(p) == unsigned_be(p) - tp * m);
        lemma_wrap128_of(signed_be(b), signed_be(p), up - sp + tp);
        assert(signed_be(b) == signed_be(p) + (up - sp + tp) * m) by (nonlinear_arith)
            requires
                signed_be(b) == up * m + unsigned_be(p) - sp * m,
                signed_be(p) == unsigned_be(p) - tp * m;
    } else {
        lemma_sign_extend(b, (16 - b.len()) as nat);
        lemma_wrap128_of(signed_be(b), signed_be(p), 0);
    }
}

/// The `i128` whose big-endian bytes are the 16 bytes `p`.
fn i128_from_16(p: &[u8]) -> (r: i128)
    requires
        p@.len() == 16,
    ensures
        r == signed_be(p@),
{
    let mut acc: u128 = 0;
    let mut i: usize = 0;
    proof {
        lemma_pow256_wide();
        lemma_pow256_small(0);
        assert(p@.subrange(0, 0) =~= Seq::<u8>::empty());
    }
    while i < 16
        invariant
            p@.len() == 16,
            i <= 16,
            acc == unsigned_be(p@.subrange(0, i as int)),
            acc < pow256(i as nat),
            pow256(15) == 0x1_00_0000_0000_0000_0000_0000_0000_0000int,
        decreases 16 - i,
    {
        proof {
            lemma_pow_monotone(i as nat, 15);
            assert(p@.subrange(0, i + 1).drop_last() =~= p@.subrange(0, i as int));
            assert(acc * 256 + 255 <= 0xffff_ffff_ffff_ffff_ffff_ffff_ffff_ffff) by (nonlinear_arith)
                requires acc < 0x1_00_0000_0000_0000_0000_0000_0000_0000int;
        }
        acc = acc * 256 + p[i] as u128;
        i = i + 1;
        proof {
            lemma_unsigned_be_bound(p@.subrange(0, i as int));
        }
    }
    assert(p@.subrange(0, 16) =~= p@);
    proof {
        lemma_pow256_wide();
        lemma_signed16_range(p@);
    }
    if p[0] >= 128 {
        let low = acc - 0x8000_0000_0000_0000_0000_0000_0000_0000u128;
        (low as i128) - 0x7fff_ffff_ffff_ffff_ffff_ffff_ffff_ffff - 1
    } else {
        acc as i128
    }
}

/// The `i128` that big-endian two's-complement bytes denote, wrapped to 128
/// bits: shorter inputs are sign-extended, longer ones keep their last 16 bytes.
pub fn i128_from_be(b: &[u8]) -> (r: i128)
    requires
        b@.len() > 0,
    ensures
        r == wrap128(signed_be(b@)),
{
    let n = b.len();
    let fill: u8 = if b[0] >= 128 { 0xFF } else { 0x00 };
    let mut padded: Vec<u8> = Vec::new();
    if n >= 16 {
        let mut i: usize = n - 16;
        while i < n
            invariant
                n == b@.len(),
                n >= 16,
                n - 16 <= i <= n,
                padded@ == b@.subrange(n - 16, i as int),
            decreases n - i,
        {
            padded.push(b[i]);
            i = i + 1;
            assert(padded@ =~= b@.subrange(n - 16, i as int));
        }
    } else {
        let mut i: usize = 0;
        while i < 16 - n
            invariant
                n == b@.len(),
                n < 16,
                fill == sign_fill(b@),
                i <= 16 - n,
                padded@ == Seq::new(i as nat, |k: int| sign_fill(b@)),
            decreases 16 - n - i,
        {
            padded.push(fill);
            i = i + 1;
            assert(padded@ =~= Seq::new(i as nat, |k: int| sign_fill(b@)));
        }
        let ghost front = padded@;
        let mut j: usize = 0;
        while j < n
            invariant
                n == b@.len(),
                j <= n,
                padded@ == front + b@.subrange(0, j as int),
            decreases n - j,
        {
            padded.push(b[j]);
            j = j + 1;
            assert(padded@ =~= front + b@.subrange(0, j as int));
        }
        assert(b@.subrange(0, n as int) =~= b@);
    }
    assert(padded@ == fit16(b@));
    proof {
        lemma_fit16(b@);
    }
    i128_from_16(&padded)
}

fn unsigned_bytes_exec(w: u128, n: usize) -> (r: Vec<u8>)
    ensures
        r@ == unsigned_bytes(w as nat, n as nat),
    decreases n,
{
    if n == 0 {
        Vec::new()
    } else {
        let mut r = unsigned_bytes_exec(w / 256, n - 1);
        r.push((w % 256) as u8);
        r
    }
}

/// The `n` big-endian two's-complement bytes of `v`, for `v` in the signed
/// range of `n` bytes (`to_be_bytes`).
pub fn be_bytes_exec(v: i128, n: usize) -> (r: Vec<u8>)
    requires
        1 <= n <= 8,
        -(pow256(n as nat) as int) / 2 <= v < (pow256(n as nat) as int) / 2,
    ensures
        r@ == be_bytes(v as int, n as nat),
        r@.len() == n,
{
    let p = pow_u128(n);
    proof {
        lemma_pow_monotone(n as nat, 8);
        lemma_pow256_small(0);
        lemma_pow256_positive(n as nat);
    }
    let w: u128 = if v < 0 { (v + p as i128) as u128 } else { v as u128 };
    proof {
        let m = pow256(n as nat) as int;
        if v < 0 {
            vstd::arithmetic::div_mod::lemma_mod_multiples_vanish(-1, v + m, m);
            vstd::arithmetic::div_mod::lemma_small_mod((v + m) as nat, m as nat);
            assert(m * -1 + (v + m) == v);
        } else {
            vstd::arithmetic::div_mod::lemma_small_mod(v as nat, m as nat);
        }
        assert(w == (v as int) % m);
        lemma_unsigned_bytes_value(w as nat, n as nat);
    }
    unsigned_bytes_exec(w, n)
}

/// The `n` big-endian two's-complement bytes of `v` modulo `256^n`
/// (`(v as iN).to_be_bytes()` for an `n`-byte integer type).
pub fn be_bytes_wrapping(v: i128, n: usize) -> (r: Vec<u8>)
    requires
        1 <= n <= 8,
    ensures
        r@ == be_bytes(v as int, n as nat),
        r@.len() == n,
{
    let m = pow_u128(n);
    proof {
        lemma_pow_monotone(n as nat, 8);
        lemma_pow256_small(0);
        lemma_pow256_positive(n as nat);
    }
    let ghost mi = m as int;
    let w: u128 = if v >= 0 {
        (v as u128) % m
    } else {
        let k: u128 = (-(v + 1)) as u128;
        let a = k % m;
        m - 1 - a
    };
    proof {
        let vi = v as int;
        if v < 0 {
            let k = -vi - 1;
            let q = k / mi;
            let a = k % mi;
            vstd::arithmetic::div_mod::lemma_fundamental_div_mod(k, mi);
            assert(vi == (-q - 1) * mi + (mi - 1 - a)) by (nonlinear_arith)
                requires k == -vi - 1, k == mi * q + a;
            vstd::arithmetic::div_mod::lemma_mod_multiples_vanish(-q - 1, mi - 1 - a, mi);
            vstd::arithmetic::div_mod::lemma_small_mod((mi - 1 - a) as nat, mi as nat);
            assert(mi * (-q - 1) + (mi - 1 - a) == vi) by (nonlinear_arith)
                requires vi == (-q - 1) * mi + (mi - 1 - a);
        }
        assert(w as int == vi % mi);
    }
    let half: u128 = m / 2;
    let s: i128 = if w >= half { (w as i128) - (m as i128) } else { w as i128 };
    proof {
        let vi = v as int;
        let si = s as int;
        if w >= half {
            vstd::arithmetic::div_mod::lemma_mod_multiples_vanish(-1, w as int, mi);
            assert(mi * -1 + (w as int) == si);
        }
        vstd::arithmetic::div_mod::lemma_small_mod(w as nat, mi as nat);
        assert(si % mi == vi % mi);
        assert(pow256(n as nat) as int / 2 == half as int);
    }
    be_bytes_exec(s, n)
}

/// Encoding an in-range value in `n` bytes and reading the bytes back gives the value.
pub proof fn lemma_be_bytes_round_trip(v: int, n: nat)
    requires
        1 <= n,
        -(pow256(n) as int) / 2 <= v < (pow256(n) as int) / 2,
    ensures
        be_bytes(v, n).len() == n,
        signed_be(be_bytes(v, n)) == v,
{
    let m = pow256(n) as int;
    lemma_pow256_positive(n);
    let w = v % m;
    assert(0 <= w < m) by {
        vstd::arithmetic::div_mod::lemma_mod_bound(v, m);
    }
    lemma_unsigned_bytes_value(w as nat, n);
    let b = be_bytes(v, n);
    assert(pow256(n) == 256 * pow256((n - 1) as nat));
    let p = pow256((n - 1) as nat) as int;
    let rest = b.subrange(1, n as int);
    assert(b =~= seq![b[0]] + rest);
    lemma_unsigned_be_concat(seq![b[0]], rest);
    lemma_unsigned_be_bound(rest);
    reveal_with_fuel(unsigned_be, 2);
    assert(seq![b[0]].drop_last() =~= Seq::<u8>::empty());
    let b0 = b[0] as int;
    let r = unsigned_be(rest) as int;
    assert(w == b0 * p + r);
    if v >= 0 {
        vstd::arithmetic::div_mod::lemma_small_mod(v as nat, m as nat);
        assert(b0 < 128) by {
            if b0 >= 128 {
                assert(b0 * p >= 128 * p) by (nonlinear_arith) requires b0 >= 128, p > 0;
            }
        }
    } else {
        vstd::arithmetic::div_mod::lemma_mod_multiples_vanish(-1, v + m, m);
        vstd::arithmetic::div_mod::lemma_small_mod((v + m) as nat, m as nat);
        assert(m * -1 + (v + m) == v);
        assert(w == v + m);
        assert(b0 >= 128) by {
            if b0 < 128 {
                assert(b0 * p <= 127 * p) by (nonlinear_arith) requires b0 <= 127, p > 0;
            }
        }
    }
}

} // verus!

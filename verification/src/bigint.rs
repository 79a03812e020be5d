//! Arbitrary-precision integer arithmetic from `num-bigint`, on integers held
//! as their big-endian two's-complement bytes.
use vstd::prelude::*;
use num_bigint::BigInt;
use num_traits::Zero;
use crate::java_semantics::trunc_div;
use crate::numbers::{signed_be, signed_bytes};

verus! {

/// The bytes of zero: `BigInt::zero().to_signed_bytes_be()`, which is `[0]`.
#[verifier::external_body]
pub(crate) fn bigint_zero() -> (r: Vec<u8>)
    ensures
        r@ == seq![0u8],
{
    BigInt::zero().to_signed_bytes_be()
}

/// `BigInt::from(v)`, as its shortest two's-complement bytes.
#[verifier::external_body]
pub(crate) fn bigint_from_i64(v: i64) -> (r: Vec<u8>)
    ensures
        r@ == signed_bytes(v as int),
{
    BigInt::from(v).to_signed_bytes_be()
}

/// `BigInt` addition of two integers given as two's-complement bytes
/// (no bytes read as zero); the sum as its shortest two's-complement bytes.
#[verifier::external_body]
pub(crate) fn bigint_add(a: &[u8], b: &[u8]) -> (r: Vec<u8>)
    ensures
        r@ == signed_bytes(signed_be(a@) + signed_be(b@)),
{
    (BigInt::from_signed_bytes_be(a) + BigInt::from_signed_bytes_be(b)).to_signed_bytes_be()
}

/// `BigInt` division by a non-zero `i64`, rounding toward zero; the
/// quotient as its shortest two's-complement bytes.
#[verifier::external_body]
pub(crate) fn bigint_div(a: &[u8], d: i64) -> (r: Vec<u8>)
    requires
        d != 0,
    ensures
        r@ == signed_bytes(trunc_div(signed_be(a@), d as int)),
{
    (BigInt::from_signed_bytes_be(a) / BigInt::from(d)).to_signed_bytes_be()
}

/// `BigInt::from_signed_bytes_be(a).to_signed_bytes_be()`: the shortest
/// two's-complement bytes of the integer `a` encodes.
#[verifier::external_body]
pub(crate) fn bigint_normalize(a: &[u8]) -> (r: Vec<u8>)
    ensures
        r@ == signed_bytes(signed_be(a@)),
{
    BigInt::from_signed_bytes_be(a).to_signed_bytes_be()
}

/// The `BigInt` order (`<`) on two integers given as two's-complement
/// bytes (no bytes read as zero): whether the first is the smaller.
#[verifier::external_body]
pub(crate) fn bigint_less(a: &[u8], b: &[u8]) -> (r: bool)
    ensures
        r == (signed_be(a@) < signed_be(b@)),
{
    BigInt::from_signed_bytes_be(a) < BigInt::from_signed_bytes_be(b)
}

} // verus!

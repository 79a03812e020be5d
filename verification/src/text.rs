//! Character-level string helpers shared by the rest of the crate.
use vstd::prelude::*;

verus! {

/// Appends `other` to `s`.
pub fn push_str(s: &mut String, other: &str)
    ensures
        final(s)@ == old(s)@ + other@,
{
    s.append(other);
}

/// Appends one character to `s` (std's `String::push`).
#[verifier::external_body]
pub(crate) fn push_char(s: &mut String, c: char)
    ensures
        final(s)@ == old(s)@.push(c),
{
    s.push(c);
}

/// The characters of `s`, in order.
pub fn chars_of(s: &str) -> (v: Vec<char>)
    ensures
        v@ == s@,
{
    let n = s.unicode_len();
    let mut v: Vec<char> = Vec::new();
    let mut i: usize = 0;
    while i < n
        invariant
            n == s@.len(),
            i <= n,
            v@ == s@.subrange(0, i as int),
        decreases n - i,
    {
        let c = s.get_char(i);
        v.push(c);
        i = i + 1;
        assert(v@ =~= s@.subrange(0, i as int));
    }
    assert(v@ =~= s@);
    v
}

/// A `String` holding exactly the characters of `v`.
pub fn string_from_chars(v: &[char]) -> (s: String)
    ensures
        s@ == v@,
{
    let mut s = String::new();
    let mut i: usize = 0;
    while i < v.len()
        invariant
            i <= v.len(),
            s@ == v@.subrange(0, i as int),
        decreases v.len() - i,
    {
        push_char(&mut s, v[i]);
        i = i + 1;
        assert(s@ =~= v@.subrange(0, i as int));
    }
    assert(s@ =~= v@);
    s
}

/// Whether two strings hold the same characters.
pub fn str_eq(a: &str, b: &str) -> (r: bool)
    ensures
        r == (a@ == b@),
{
    let av = chars_of(a);
    let bv = chars_of(b);
    if av.len() != bv.len() {
        return false;
    }
    let mut i: usize = 0;
    while i < av.len()
        invariant
            av@ == a@,
            bv@ == b@,
            av.len() == bv.len(),
            i <= av.len(),
            forall|j: int| 0 <= j < i ==> av@[j] == bv@[j],
        decreases av.len() - i,
    {
        if av[i] != bv[i] {
            return false;
        }
        i = i + 1;
    }
    assert(a@ =~= b@);
    true
}

/// The character of the decimal digit `d`.
pub open spec fn digit_char(d: int) -> char {
    if d == 0 { '0' } else if d == 1 { '1' } else if d == 2 { '2' } else if d == 3 { '3' }
    else if d == 4 { '4' } else if d == 5 { '5' } else if d == 6 { '6' } else if d == 7 { '7' }
    else if d == 8 { '8' } else { '9' }
}

/// Decimal notation of a natural number, without leading zeros.
pub open spec fn nat_decimal(n: nat) -> Seq<char>
    decreases n,
{
    if n < 10 {
        seq![digit_char(n as int)]
    } else {
        nat_decimal(n / 10).push(digit_char((n % 10) as int))
    }
}

/// Decimal notation of an integer, with a leading `-` when negative.
pub open spec fn int_decimal(v: int) -> Seq<char> {
    if v < 0 {
        seq!['-'] + nat_decimal((-v) as nat)
    } else {
        nat_decimal(v as nat)
    }
}

fn digit_to_char(d: u64) -> (c: char)
    requires
        d < 10,
    ensures
        c == digit_char(d as int),
{
    if d == 0 { '0' } else if d == 1 { '1' } else if d == 2 { '2' } else if d == 3 { '3' }
    else if d == 4 { '4' } else if d == 5 { '5' } else if d == 6 { '6' } else if d == 7 { '7' }
    else if d == 8 { '8' } else { '9' }
}

/// Appends the decimal notation of `n` to `s`.
pub fn push_decimal_u64(s: &mut String, n: u64)
    ensures
        final(s)@ == old(s)@ + nat_decimal(n as nat),
    decreases n,
{
    if n >= 10 {
        push_decimal_u64(s, n / 10);
    }
    push_char(s, digit_to_char(n % 10));
    assert(final(s)@ =~= old(s)@ + nat_decimal(n as nat));
}

/// Appends the decimal notation of `v` to `s`, as `Display` writes it.
pub fn push_decimal_i64(s: &mut String, v: i64)
    ensures
        final(s)@ == old(s)@ + int_decimal(v as int),
{
    if v < 0 {
        push_char(s, '-');
        let magnitude: u64 = if v == i64::MIN {
            9223372036854775808u64
        } else {
            (-v) as u64
        };
        push_decimal_u64(s, magnitude);
        assert(final(s)@ =~= old(s)@ + int_decimal(v as int));
    } else {
        push_decimal_u64(s, v as u64);
    }
}

/// Appends the decimal notation of `n` to `s`.
pub fn push_decimal_u128(s: &mut String, n: u128)
    ensures
        final(s)@ == old(s)@ + nat_decimal(n as nat),
    decreases n,
{
    if n >= 10 {
        push_decimal_u128(s, n / 10);
    }
    push_char(s, digit_to_char((n % 10) as u64));
    assert(final(s)@ =~= old(s)@ + nat_decimal(n as nat));
}

/// Appends the decimal notation of `v` to `s`.
pub fn push_decimal_i128(s: &mut String, v: i128)
    ensures
        final(s)@ == old(s)@ + int_decimal(v as int),
{
    if v < 0 {
        push_char(s, '-');
        let magnitude: u128 = if v == i128::MIN {
            170141183460469231731687303715884105728u128
        } else {
            (-v) as u128
        };
        push_decimal_u128(s, magnitude);
        assert(final(s)@ =~= old(s)@ + int_decimal(v as int));
    } else {
        push_decimal_u128(s, v as u128);
    }
}

} // verus!

//! Hexadecimal text for byte strings: blob literals, UUIDs and the `0x...` rendering.
use vstd::prelude::*;
use vstd::utf8::encode_utf8;
use crate::text::{push_char, push_str, chars_of};

verus! {

broadcast use vstd::seq_lib::group_seq_properties;

/// The lower-case hexadecimal digit for `n < 16`.
pub open spec fn hex_char(n: int) -> char {
    if n < 10 { (48 + n) as char } else { (87 + n) as char }
}

/// Two lower-case hexadecimal digits per byte.
pub open spec fn hex_digits(b: Seq<u8>) -> Seq<char>
    decreases b.len(),
{
    if b.len() == 0 {
        seq![]
    } else {
        hex_digits(b.drop_last()) + seq![hex_char(b.last() as int / 16), hex_char(b.last() as int % 16)]
    }
}

fn hex_char_exec(n: u8) -> (c: char)
    requires
        n < 16,
    ensures
        c == hex_char(n as int),
{
    if n < 10 { (48 + n) as char } else { (87 + n) as char }
}

/// `0x` followed by two lower-case hexadecimal digits per byte.
pub fn hex_bytes(bytes: &[u8]) -> (r: String)
    ensures
        r@ == "0x"@ + hex_digits(bytes@),
{
    let mut value = String::new();
    push_str(&mut value, "0x");
    let mut i: usize = 0;
    while i < bytes.len()
        invariant
            i <= bytes@.len(),
            value@ == "0x"@ + hex_digits(bytes@.subrange(0, i as int)),
        decreases bytes.len() - i,
    {
        let b = bytes[i];
        push_char(&mut value, hex_char_exec(b / 16));
        push_char(&mut value, hex_char_exec(b % 16));
        assert(bytes@.subrange(0, i + 1).drop_last() =~= bytes@.subrange(0, i as int));
        i = i + 1;
        assert(value@ =~= "0x"@ + hex_digits(bytes@.subrange(0, i as int)));
    }
    assert(bytes@.subrange(0, bytes@.len() as int) =~= bytes@);
    value
}

/// The value of an ASCII hexadecimal digit byte, in either case.
pub open spec fn hex_value(b: u8) -> Option<u8> {
    if 48 <= b <= 57 {
        Some((b - 48) as u8)
    } else if 97 <= b <= 102 {
        Some((b - 87) as u8)
    } else if 65 <= b <= 70 {
        Some((b - 55) as u8)
    } else {
        None
    }
}

/// What `u8::from_str_radix(_, 16)` gives for a two-character ASCII text:
/// `+` and one digit, or two digits.
pub open spec fn hex_pair(b0: u8, b1: u8) -> Option<u8> {
    if b0 == 43 {
        hex_value(b1)
    } else {
        match (hex_value(b0), hex_value(b1)) {
            (Some(x), Some(y)) => Some((x * 16 + y) as u8),
            _ => None,
        }
    }
}

/// Whether `b` continues a multi-byte UTF-8 character.
pub open spec fn is_continuation(b: u8) -> bool {
    128 <= b < 192
}

/// Parsing two text bytes at a time from byte `i` of the UTF-8 text `b`:
/// `None` where the two-byte slice would not fall on character boundaries
/// (which panics), `Some(None)` at the first pair that is not a hexadecimal
/// byte, else `Some(Some(bytes))`.
pub open spec fn pair_walk(b: Seq<u8>, i: int) -> Option<Option<Seq<u8>>>
    decreases b.len() - i,
{
    if i < 0 || i >= b.len() {
        Some(Some(seq![]))
    } else if i + 2 > b.len() || (i + 2 < b.len() && is_continuation(b[i + 2])) {
        None
    } else if b[i] >= 128 || b[i + 1] >= 128 {
        Some(None)
    } else {
        match hex_pair(b[i], b[i + 1]) {
            None => Some(None),
            Some(v) => match pair_walk(b, i + 2) {
                Some(Some(rest)) => Some(Some(seq![v] + rest)),
                other => other,
            },
        }
    }
}

/// `u8::from_str_radix(s, 16)` on a two-character ASCII text.
#[verifier::external_body]
fn u8_from_hex(s: &str) -> (r: Option<u8>)
    requires
        s@.len() == 2,
        (s@[0] as u32) < 128,
        (s@[1] as u32) < 128,
    ensures
        r == hex_pair(s@[0] as u8, s@[1] as u8),
{
    u8::from_str_radix(s, 16).ok()
}

/// `prefix` put in front of a walk's bytes.
pub open spec fn with_prefix(prefix: Seq<u8>, w: Option<Option<Seq<u8>>>) -> Option<Option<Seq<u8>>> {
    match w {
        Some(Some(rest)) => Some(Some(prefix + rest)),
        other => other,
    }
}

/// Parses the bytes of a UTF-8 text two at a time as hexadecimal.
fn hex_pairs(b: &[u8]) -> (r: Option<Vec<u8>>)
    requires
        pair_walk(b@, 0) is Some,
    ensures
        pair_walk(b@, 0) == Some(match r { Some(v) => Some(v@), None => None }),
{
    let mut out: Vec<u8> = Vec::new();
    let mut i: usize = 0;
    while i < b.len()
        invariant
            i <= b@.len(),
            pair_walk(b@, 0) is Some,
            pair_walk(b@, 0) == with_prefix(out@, pair_walk(b@, i as int)),
        decreases b.len() - i,
    {
        assert(i + 2 <= b@.len()) by {
            if i + 2 > b@.len() {
                assert(pair_walk(b@, i as int) is None);
            }
        }
        if b[i] >= 128 || b[i + 1] >= 128 {
            return None;
        }
        let mut s = String::new();
        push_char(&mut s, b[i] as char);
        push_char(&mut s, b[i + 1] as char);
        assert(s@ =~= seq![b[i as int] as char, b[i + 1] as char]);
        match u8_from_hex(s.as_str()) {
            None => return None,
            Some(v) => {
                let ghost before = out@;
                out.push(v);
                assert(with_prefix(before, pair_walk(b@, i as int)) == with_prefix(out@, pair_walk(b@, i + 2))) by {
                    assert(before + (seq![v] + Seq::<u8>::empty()) =~= out@ + Seq::<u8>::empty());
                    match pair_walk(b@, i + 2) {
                        Some(Some(rest)) => {
                            assert(before + (seq![v] + rest) =~= out@ + rest);
                        },
                        _ => {},
                    }
                }
            },
        }
        i = i + 2;
    }
    assert(out@ + Seq::<u8>::empty() =~= out@);
    Some(out)
}

/// The characters of `s` other than `-`.
pub open spec fn without_dashes(s: Seq<char>) -> Seq<char> {
    s.filter(|c: char| c != '-')
}

/// The bytes of a UUID written in hexadecimal, dashes ignored.
pub fn parse_uuid_bytes(s: &str) -> (r: Option<Vec<u8>>)
    requires
        pair_walk(encode_utf8(without_dashes(s@)), 0) is Some,
    ensures
        pair_walk(encode_utf8(without_dashes(s@)), 0) == Some(match r { Some(v) => Some(v@), None => None }),
{
    let c = chars_of(s);
    let mut hex = String::new();
    let mut i: usize = 0;
    while i < c.len()
        invariant
            i <= c@.len(),
            c@ == s@,
            hex@ == without_dashes(c@.subrange(0, i as int)),
        decreases c.len() - i,
    {
        let ghost pre = c@.subrange(0, i + 1);
        proof {
            reveal(Seq::filter);
        }
        assert(pre.drop_last() =~= c@.subrange(0, i as int));
        assert(pre.last() == c@[i as int]);
        assert(without_dashes(pre) == (if c@[i as int] != '-' {
            without_dashes(c@.subrange(0, i as int)).push(c@[i as int])
        } else {
            without_dashes(c@.subrange(0, i as int))
        }));
        if c[i] != '-' {
            push_char(&mut hex, c[i]);
        }
        i = i + 1;
    }
    assert(c@.subrange(0, c@.len() as int) =~= c@);
    proof {
        reveal(Seq::filter);
        assert(without_dashes(Seq::<char>::empty()) == Seq::<char>::empty());
    }
    let b = hex.as_str().as_bytes();
    hex_pairs(b)
}

/// The bytes of a blob literal `0x...` / `0X...`: `None` without the prefix,
/// with an odd number of text bytes after it, or with a pair that is not hexadecimal.
pub open spec fn blob_literal(arg: Seq<char>) -> Option<Option<Seq<u8>>> {
    let digits = if arg.len() >= 2 && arg[0] == '0' && (arg[1] == 'x' || arg[1] == 'X') {
        Some(arg.subrange(2, arg.len() as int))
    } else {
        None
    };
    match digits {
        None => Some(None),
        Some(d) => if encode_utf8(d).len() % 2 != 0 { Some(None) } else { pair_walk(encode_utf8(d), 0) },
    }
}

/// The bytes of a blob literal `0x...` / `0X...`.
pub fn parse_blob_metadata_arg(arg: &str) -> (r: Option<Vec<u8>>)
    requires
        blob_literal(arg@) is Some,
    ensures
        blob_literal(arg@) == Some(match r { Some(v) => Some(v@), None => None }),
{
    let c = chars_of(arg);
    if !(c.len() >= 2 && c[0] == '0' && (c[1] == 'x' || c[1] == 'X')) {
        return None;
    }
    let mut digits = String::new();
    let mut i: usize = 2;
    while i < c.len()
        invariant
            2 <= i <= c@.len(),
            c@ == arg@,
            digits@ == c@.subrange(2, i as int),
        decreases c.len() - i,
    {
        push_char(&mut digits, c[i]);
        i = i + 1;
        assert(digits@ =~= c@.subrange(2, i as int));
    }
    let b = digits.as_str().as_bytes();
    if b.len() % 2 != 0 {
        return None;
    }
    hex_pairs(b)
}

/// The digit at position `i` of the hexadecimal text of `b`.
pub open spec fn hex_digit_at(b: Seq<u8>, i: int) -> char {
    if i % 2 == 0 { hex_char(b[i / 2] as int / 16) } else { hex_char(b[i / 2] as int % 16) }
}

proof fn lemma_hex_digits_at(b: Seq<u8>)
    ensures
        hex_digits(b).len() == 2 * b.len(),
        forall|i: int| 0 <= i < 2 * b.len() ==> #[trigger] hex_digits(b)[i] == hex_digit_at(b, i),
    decreases b.len(),
{
    if b.len() > 0 {
        let p = b.drop_last();
        lemma_hex_digits_at(p);
        let d = hex_digits(b);
        let n = b.len() as int;
        assert(d == hex_digits(p) + seq![hex_char(b.last() as int / 16), hex_char(b.last() as int % 16)]);
        assert forall|i: int| 0 <= i < 2 * b.len() implies #[trigger] d[i] == hex_digit_at(b, i) by {
            if i < 2 * (n - 1) {
                assert(d[i] == hex_digits(p)[i]);
                assert(hex_digits(p)[i] == hex_digit_at(p, i));
                assert(i / 2 < n - 1) by (nonlinear_arith) requires i < 2 * (n - 1), 0 <= i;
                assert(p[i / 2] == b[i / 2]);
            } else {
                assert(i / 2 == n - 1) by (nonlinear_arith) requires 2 * (n - 1) <= i < 2 * n;
                assert(b.last() == b[n - 1]);
            }
        }
    }
}

proof fn lemma_hex_char_round_trip(n: int)
    requires
        0 <= n < 16,
    ensures
        (hex_char(n) as u32) < 128,
        hex_char(n) as u32 != 43,
        hex_value(hex_char(n) as u8) == Some(n as u8),
{
}

/// Writing bytes as a `0x...` literal and parsing the literal gives the bytes back.
pub proof fn lemma_blob_literal_round_trip(b: Seq<u8>)
    ensures
        blob_literal("0x"@ + hex_digits(b)) == Some(Some(b)),
{
    reveal_strlit("0x");
    let arg = "0x"@ + hex_digits(b);
    let d = hex_digits(b);
    lemma_hex_digits_at(b);
    assert(arg.subrange(2, arg.len() as int) =~= d);
    assert forall|i: int| 0 <= i < d.len() implies '\0' <= #[trigger] d[i] <= '\u{7f}' by {
        let j = i / 2;
        assert(d[i] == hex_digit_at(b, i));
        assert(0 <= j < b.len()) by (nonlinear_arith) requires 0 <= i < 2 * b.len(), j == i / 2;
        lemma_hex_char_round_trip(b[j] as int / 16);
        lemma_hex_char_round_trip(b[j] as int % 16);
    }
    assert(vstd::utf8::is_ascii_chars(d));
    vstd::utf8::is_ascii_chars_encode_utf8(d);
    let e = encode_utf8(d);
    assert(e.len() == 2 * b.len());
    assert(e.len() % 2 == 0);
    assert forall|k: int| 0 <= k < b.len() implies #[trigger] e[2 * k] == hex_char(b[k] as int / 16) as u8
        && e[2 * k + 1] == hex_char(b[k] as int % 16) as u8 by {
        assert(d[2 * k] == hex_digit_at(b, 2 * k));
        assert(d[2 * k + 1] == hex_digit_at(b, 2 * k + 1));
        assert((2 * k) / 2 == k && (2 * k) % 2 == 0);
        assert((2 * k + 1) / 2 == k && (2 * k + 1) % 2 == 1);
        assert(e[2 * k] == d[2 * k] as u8);
        assert(e[2 * k + 1] == d[2 * k + 1] as u8);
    }
    lemma_walk_round_trip(b, e, 0);
    assert(b.subrange(0, b.len() as int) =~= b);
}

proof fn lemma_walk_round_trip(b: Seq<u8>, e: Seq<u8>, j: int)
    requires
        0 <= j <= b.len(),
        e.len() == 2 * b.len(),
        forall|k: int| 0 <= k < b.len() ==> #[trigger] e[2 * k] == hex_char(b[k] as int / 16) as u8
            && e[2 * k + 1] == hex_char(b[k] as int % 16) as u8,
    ensures
        pair_walk(e, 2 * j) == Some(Some(b.subrange(j, b.len() as int))),
    decreases b.len() - j,
{
    if j < b.len() {
        lemma_walk_round_trip(b, e, j + 1);
        let hi = b[j] as int / 16;
        let lo = b[j] as int % 16;
        lemma_hex_char_round_trip(hi);
        lemma_hex_char_round_trip(lo);
        assert(e[2 * j] == hex_char(hi) as u8);
        assert(e[2 * j + 1] == hex_char(lo) as u8);
        if j + 1 < b.len() {
            assert(e[2 * (j + 1)] == hex_char(b[j + 1] as int / 16) as u8);
            lemma_hex_char_round_trip(b[j + 1] as int / 16);
        }
        assert(hi * 16 + lo == b[j] as int);
        assert(seq![b[j]] + b.subrange(j + 1, b.len() as int) =~= b.subrange(j, b.len() as int));
    } else {
        assert(b.subrange(j, b.len() as int) =~= Seq::<u8>::empty());
    }
}

} // verus!

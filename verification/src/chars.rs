//! Text algorithms over character sequences: whitespace trimming, ASCII case
//! mapping, substring search, splitting, replacement and integer parsing,
//! each with the meaning Rust's `str` methods give them.
use vstd::prelude::*;

verus! {

broadcast use vstd::seq_lib::group_seq_properties;

// ─── Specifications ─────────────────────────────────────────────────────

/// Unicode `White_Space`, as `char::is_whitespace` tests it.
pub open spec fn is_ws(c: char) -> bool {
    let u = c as u32;
    (9 <= u <= 13) || u == 32 || u == 0x85 || u == 0xA0 || u == 0x1680 || (0x2000 <= u <= 0x200A)
        || u == 0x2028 || u == 0x2029 || u == 0x202F || u == 0x205F || u == 0x3000
}

/// Number of leading whitespace characters of `s`.
pub open spec fn ws_lead(s: Seq<char>) -> nat
    decreases s.len(),
{
    if s.len() > 0 && is_ws(s[0]) {
        1 + ws_lead(s.subrange(1, s.len() as int))
    } else {
        0
    }
}

/// Number of trailing whitespace characters of `s`.
pub open spec fn ws_trail(s: Seq<char>) -> nat
    decreases s.len(),
{
    if s.len() > 0 && is_ws(s.last()) {
        1 + ws_trail(s.drop_last())
    } else {
        0
    }
}

/// `s` without leading whitespace.
pub open spec fn trim_start(s: Seq<char>) -> Seq<char> {
    s.subrange(ws_lead(s) as int, s.len() as int)
}

/// `s` without trailing whitespace.
pub open spec fn trim_end(s: Seq<char>) -> Seq<char> {
    s.subrange(0, s.len() - ws_trail(s))
}

/// `s` without leading and trailing whitespace (`str::trim`).
pub open spec fn trim(s: Seq<char>) -> Seq<char> {
    trim_end(trim_start(s))
}

/// ASCII lower-case mapping of one character.
pub open spec fn lower_char(c: char) -> char {
    if 'A' <= c <= 'Z' { ((c as u32) + 32) as char } else { c }
}

/// ASCII upper-case mapping of one character.
pub open spec fn upper_char(c: char) -> char {
    if 'a' <= c <= 'z' { ((c as u32) - 32) as char } else { c }
}

/// `str::to_ascii_lowercase`.
pub open spec fn lower(s: Seq<char>) -> Seq<char> {
    Seq::new(s.len(), |i: int| lower_char(s[i]))
}

/// `str::to_ascii_uppercase`.
pub open spec fn upper(s: Seq<char>) -> Seq<char> {
    Seq::new(s.len(), |i: int| upper_char(s[i]))
}

/// `str::eq_ignore_ascii_case`.
pub open spec fn eq_ignore_case(a: Seq<char>, b: Seq<char>) -> bool {
    lower(a) == lower(b)
}

/// Whether `p` occurs in `s` at position `i`.
pub open spec fn matches_at(s: Seq<char>, p: Seq<char>, i: int) -> bool {
    0 <= i && i + p.len() <= s.len() && s.subrange(i, i + p.len()) == p
}

/// The first position at or after `i` where `p` occurs in `s`.
pub open spec fn find_from(s: Seq<char>, p: Seq<char>, i: int) -> Option<int>
    decreases s.len() + 1 - i,
{
    if i < 0 || i + p.len() > s.len() {
        None
    } else if matches_at(s, p, i) {
        Some(i)
    } else {
        find_from(s, p, i + 1)
    }
}

/// The first position where `p` occurs in `s` (`str::find`, counted in characters).
pub open spec fn find(s: Seq<char>, p: Seq<char>) -> Option<int> {
    find_from(s, p, 0)
}

/// The last position at or before `i` where `p` occurs in `s`.
pub open spec fn rfind_from(s: Seq<char>, p: Seq<char>, i: int) -> Option<int>
    decreases i + 1,
{
    if i < 0 {
        None
    } else if matches_at(s, p, i) {
        Some(i)
    } else {
        rfind_from(s, p, i - 1)
    }
}

/// The last position where `p` occurs in `s` (`str::rfind`, counted in characters).
pub open spec fn rfind(s: Seq<char>, p: Seq<char>) -> Option<int> {
    if p.len() > s.len() { None } else { rfind_from(s, p, s.len() - p.len()) }
}

/// `str::starts_with`.
pub open spec fn starts_with(s: Seq<char>, p: Seq<char>) -> bool {
    p.len() <= s.len() && s.subrange(0, p.len() as int) == p
}

/// `str::ends_with`.
pub open spec fn ends_with(s: Seq<char>, p: Seq<char>) -> bool {
    p.len() <= s.len() && s.subrange(s.len() - p.len(), s.len() as int) == p
}

/// `str::strip_prefix`.
pub open spec fn strip_prefix(s: Seq<char>, p: Seq<char>) -> Option<Seq<char>> {
    if starts_with(s, p) { Some(s.subrange(p.len() as int, s.len() as int)) } else { None }
}

/// `str::strip_suffix`.
pub open spec fn strip_suffix(s: Seq<char>, p: Seq<char>) -> Option<Seq<char>> {
    if ends_with(s, p) { Some(s.subrange(0, s.len() - p.len())) } else { None }
}

/// `str::split_once`: the parts before and after the first occurrence of `p`.
pub open spec fn split_once(s: Seq<char>, p: Seq<char>) -> Option<(Seq<char>, Seq<char>)> {
    match find(s, p) {
        Some(i) => Some((s.subrange(0, i), s.subrange(i + p.len(), s.len() as int))),
        None => None,
    }
}

/// Replacement of the non-overlapping occurrences of a non-empty `f`, scanning from `i`.
pub open spec fn replace_from(s: Seq<char>, f: Seq<char>, t: Seq<char>, i: int) -> Seq<char>
    decreases s.len() + 1 - i,
{
    if f.len() == 0 || i < 0 || i > s.len() {
        Seq::empty()
    } else {
        match find_from(s, f, i) {
            Some(j) => if i < j + f.len() <= s.len() {
                s.subrange(i, j) + t + replace_from(s, f, t, j + f.len())
            } else {
                Seq::empty()
            },
            None => s.subrange(i, s.len() as int),
        }
    }
}

/// `t` inserted before every character of `s` and at its end (replacing the empty string).
pub open spec fn interleave(s: Seq<char>, t: Seq<char>) -> Seq<char>
    decreases s.len(),
{
    if s.len() == 0 {
        t
    } else {
        interleave(s.drop_last(), t) + seq![s.last()] + t
    }
}

/// `str::replace`.
pub open spec fn replace(s: Seq<char>, f: Seq<char>, t: Seq<char>) -> Seq<char> {
    if f.len() == 0 { interleave(s, t) } else { replace_from(s, f, t, 0) }
}

/// Whether `c` is an ASCII decimal digit.
pub open spec fn is_digit(c: char) -> bool {
    '0' <= c <= '9'
}

/// Value of a string of decimal digits.
pub open spec fn digits_value(d: Seq<char>) -> int
    decreases d.len(),
{
    if d.len() == 0 { 0 } else { digits_value(d.drop_last()) * 10 + ((d.last() as u32) - 48) }
}

/// Whether every character of `d` is a decimal digit.
pub open spec fn all_digits(d: Seq<char>) -> bool {
    forall|i: int| 0 <= i < d.len() ==> is_digit(#[trigger] d[i])
}

/// The integer `i64::from_str` reads from `s`, before the range check:
/// an optional sign followed by at least one digit.
pub open spec fn parse_int(s: Seq<char>) -> Option<int> {
    if s.len() == 0 {
        None
    } else if s[0] == '-' || s[0] == '+' {
        let d = s.drop_first();
        if d.len() > 0 && all_digits(d) {
            Some(if s[0] == '-' { -digits_value(d) } else { digits_value(d) })
        } else {
            None
        }
    } else if all_digits(s) {
        Some(digits_value(s))
    } else {
        None
    }
}

/// `i64::from_str`.
pub open spec fn parse_i64(s: Seq<char>) -> Option<i64> {
    match parse_int(s) {
        Some(v) => if i64::MIN <= v <= i64::MAX { Some(v as i64) } else { None },
        None => None,
    }
}

/// The view of an optional index.
pub open spec fn opt_index(r: Option<usize>) -> Option<int> {
    match r {
        Some(i) => Some(i as int),
        None => None,
    }
}

/// The view of an optional character vector.
pub open spec fn opt_chars(r: Option<Vec<char>>) -> Option<Seq<char>> {
    match r {
        Some(v) => Some(v@),
        None => None,
    }
}

/// The view of an optional pair of character vectors.
pub open spec fn opt_pair(r: Option<(Vec<char>, Vec<char>)>) -> Option<(Seq<char>, Seq<char>)> {
    match r {
        Some(p) => Some((p.0@, p.1@)),
        None => None,
    }
}

// ─── Lemmas ─────────────────────────────────────────────────────────────

pub proof fn lemma_ws_lead_bound(s: Seq<char>)
    ensures
        ws_lead(s) <= s.len(),
    decreases s.len(),
{
    if s.len() > 0 && is_ws(s[0]) {
        lemma_ws_lead_bound(s.subrange(1, s.len() as int));
    }
}

pub proof fn lemma_ws_trail_bound(s: Seq<char>)
    ensures
        ws_trail(s) <= s.len(),
    decreases s.len(),
{
    if s.len() > 0 && is_ws(s.last()) {
        lemma_ws_trail_bound(s.drop_last());
    }
}

/// A position `find_from` reports is a match at or after the start.
pub proof fn lemma_find_from_bounds(s: Seq<char>, p: Seq<char>, i: int)
    ensures
        find_from(s, p, i) matches Some(j) ==> i <= j && j + p.len() <= s.len() && matches_at(s, p, j),
    decreases s.len() + 1 - i,
{
    if i < 0 || i + p.len() > s.len() {
    } else if matches_at(s, p, i) {
    } else {
        lemma_find_from_bounds(s, p, i + 1);
    }
}

/// A position `rfind_from` reports is a match at or before the start.
pub proof fn lemma_rfind_from_bounds(s: Seq<char>, p: Seq<char>, i: int)
    ensures
        rfind_from(s, p, i) matches Some(j) ==> 0 <= j <= i && matches_at(s, p, j),
    decreases i + 1,
{
    if i < 0 {
    } else if matches_at(s, p, i) {
    } else {
        lemma_rfind_from_bounds(s, p, i - 1);
    }
}

proof fn lemma_digits_value_nonneg(d: Seq<char>)
    requires
        all_digits(d),
    ensures
        digits_value(d) >= 0,
    decreases d.len(),
{
    if d.len() > 0 {
        assert(is_digit(d[d.len() - 1]));
        lemma_digits_value_nonneg(d.drop_last());
    }
}

// ─── Executable counterparts ────────────────────────────────────────────

/// The characters `v[lo..hi]`.
pub fn slice_chars(v: &[char], lo: usize, hi: usize) -> (r: Vec<char>)
    requires
        lo <= hi <= v@.len(),
    ensures
        r@ == v@.subrange(lo as int, hi as int),
{
    let mut r: Vec<char> = Vec::new();
    let mut i = lo;
    while i < hi
        invariant
            lo <= i <= hi,
            hi <= v@.len(),
            r@ == v@.subrange(lo as int, i as int),
        decreases hi - i,
    {
        r.push(v[i]);
        i = i + 1;
        assert(r@ =~= v@.subrange(lo as int, i as int));
    }
    r
}

/// Appends `b` to `r`.
pub fn extend(r: &mut Vec<char>, b: &[char])
    ensures
        final(r)@ == old(r)@ + b@,
{
    let mut i: usize = 0;
    let ghost start = r@;
    while i < b.len()
        invariant
            i <= b@.len(),
            r@ == start + b@.subrange(0, i as int),
        decreases b.len() - i,
    {
        r.push(b[i]);
        i = i + 1;
        assert(r@ =~= start + b@.subrange(0, i as int));
    }
    assert(b@.subrange(0, b@.len() as int) =~= b@);
}

/// `char::is_whitespace`.
pub fn is_whitespace(c: char) -> (r: bool)
    ensures
        r == is_ws(c),
{
    let u = c as u32;
    (9 <= u && u <= 13) || u == 32 || u == 0x85 || u == 0xA0 || u == 0x1680 || (0x2000 <= u && u <= 0x200A)
        || u == 0x2028 || u == 0x2029 || u == 0x202F || u == 0x205F || u == 0x3000
}

/// `str::trim`.
pub fn trim_chars(v: &[char]) -> (r: Vec<char>)
    ensures
        r@ == trim(v@),
{
    let n = v.len();
    let mut a: usize = 0;
    assert(v@.subrange(0, n as int) =~= v@);
    while a < n && is_whitespace(v[a])
        invariant
            a <= n,
            n == v@.len(),
            ws_lead(v@) == a + ws_lead(v@.subrange(a as int, n as int)),
        decreases n - a,
    {
        proof {
            let t = v@.subrange(a as int, n as int);
            assert(t.subrange(1, t.len() as int) =~= v@.subrange(a + 1, n as int));
        }
        a = a + 1;
    }
    let mut b: usize = n;
    proof {
        lemma_ws_lead_bound(v@);
        assert(ws_lead(v@.subrange(a as int, n as int)) == 0);
        assert(trim_start(v@) =~= v@.subrange(a as int, n as int));
    }
    while b > a && is_whitespace(v[b - 1])
        invariant
            a <= b <= n,
            n == v@.len(),
            ws_trail(v@.subrange(a as int, n as int)) == (n - b) + ws_trail(v@.subrange(a as int, b as int)),
        decreases b,
    {
        proof {
            let t = v@.subrange(a as int, b as int);
            assert(t.drop_last() =~= v@.subrange(a as int, b - 1));
        }
        b = b - 1;
    }
    proof {
        assert(ws_trail(v@.subrange(a as int, b as int)) == 0);
        assert(trim(v@) =~= v@.subrange(a as int, b as int));
    }
    slice_chars(v, a, b)
}

/// ASCII lower-case mapping of one character.
pub fn lower_char_exec(c: char) -> (r: char)
    ensures
        r == lower_char(c),
{
    if 'A' <= c && c <= 'Z' {
        ((c as u8) + 32) as char
    } else {
        c
    }
}

/// ASCII upper-case mapping of one character.
pub fn upper_char_exec(c: char) -> (r: char)
    ensures
        r == upper_char(c),
{
    if 'a' <= c && c <= 'z' {
        ((c as u8) - 32) as char
    } else {
        c
    }
}

/// `str::to_ascii_lowercase`.
pub fn lower_chars(v: &[char]) -> (r: Vec<char>)
    ensures
        r@ == lower(v@),
{
    let mut r: Vec<char> = Vec::new();
    let mut i: usize = 0;
    while i < v.len()
        invariant
            i <= v@.len(),
            r@.len() == i,
            forall|j: int| 0 <= j < i ==> r@[j] == lower_char(v@[j]),
        decreases v.len() - i,
    {
        r.push(lower_char_exec(v[i]));
        i = i + 1;
    }
    assert(r@ =~= lower(v@));
    r
}

/// `str::to_ascii_uppercase`.
pub fn upper_chars(v: &[char]) -> (r: Vec<char>)
    ensures
        r@ == upper(v@),
{
    let mut r: Vec<char> = Vec::new();
    let mut i: usize = 0;
    while i < v.len()
        invariant
            i <= v@.len(),
            r@.len() == i,
            forall|j: int| 0 <= j < i ==> r@[j] == upper_char(v@[j]),
        decreases v.len() - i,
    {
        r.push(upper_char_exec(v[i]));
        i = i + 1;
    }
    assert(r@ =~= upper(v@));
    r
}

/// `str::eq_ignore_ascii_case`.
pub fn eq_ignore_case_exec(a: &[char], b: &[char]) -> (r: bool)
    ensures
        r == eq_ignore_case(a@, b@),
{
    if a.len() != b.len() {
        assert(lower(a@).len() != lower(b@).len());
        return false;
    }
    let mut i: usize = 0;
    while i < a.len()
        invariant
            i <= a@.len(),
            a@.len() == b@.len(),
            forall|j: int| 0 <= j < i ==> lower_char(a@[j]) == lower_char(b@[j]),
        decreases a.len() - i,
    {
        if lower_char_exec(a[i]) != lower_char_exec(b[i]) {
            assert(lower(a@)[i as int] != lower(b@)[i as int]);
            return false;
        }
        i = i + 1;
    }
    assert(lower(a@) =~= lower(b@));
    true
}

/// Whether `p` occurs in `s` at position `i`.
pub fn matches_at_exec(s: &[char], p: &[char], i: usize) -> (r: bool)
    ensures
        r == matches_at(s@, p@, i as int),
{
    if i > s.len() || p.len() > s.len() - i {
        return false;
    }
    let mut j: usize = 0;
    while j < p.len()
        invariant
            j <= p@.len(),
            i + p@.len() <= s@.len(),
            p.len() == p@.len(),
            s.len() == s@.len(),
            forall|k: int| 0 <= k < j ==> s@[i + k] == p@[k],
        decreases p.len() - j,
    {
        if s[i + j] != p[j] {
            assert(s@.subrange(i as int, i + p@.len())[j as int] != p@[j as int]);
            return false;
        }
        j = j + 1;
    }
    assert(s@.subrange(i as int, i + p@.len()) =~= p@);
    true
}

/// The first position at or after `start` where `p` occurs in `s`.
pub fn find_from_exec(s: &[char], p: &[char], start: usize) -> (r: Option<usize>)
    ensures
        opt_index(r) == find_from(s@, p@, start as int),
{
    let mut i = start;
    while i <= s.len() && p.len() <= s.len() - i
        invariant
            start <= i,
            find_from(s@, p@, start as int) == find_from(s@, p@, i as int),
        decreases s.len() + 1 - i,
    {
        if matches_at_exec(s, p, i) {
            return Some(i);
        }
        assert(p@.len() > 0) by {
            if p@.len() == 0 {
                assert(s@.subrange(i as int, i as int) =~= p@);
            }
        }
        i = i + 1;
    }
    None
}

/// `str::find`, counted in characters.
pub fn find_exec(s: &[char], p: &[char]) -> (r: Option<usize>)
    ensures
        opt_index(r) == find(s@, p@),
{
    find_from_exec(s, p, 0)
}

/// `str::rfind`, counted in characters.
pub fn rfind_exec(s: &[char], p: &[char]) -> (r: Option<usize>)
    ensures
        opt_index(r) == rfind(s@, p@),
{
    if p.len() > s.len() {
        return None;
    }
    let mut i = s.len() - p.len();
    loop
        invariant
            i + p@.len() <= s@.len(),
            rfind(s@, p@) == rfind_from(s@, p@, i as int),
        decreases i,
    {
        if matches_at_exec(s, p, i) {
            return Some(i);
        }
        if i == 0 {
            assert(rfind_from(s@, p@, -1) is None);
            return None;
        }
        i = i - 1;
    }
}

/// `str::starts_with`.
pub fn starts_with_exec(s: &[char], p: &[char]) -> (r: bool)
    ensures
        r == starts_with(s@, p@),
{
    matches_at_exec(s, p, 0)
}

/// `str::ends_with`.
pub fn ends_with_exec(s: &[char], p: &[char]) -> (r: bool)
    ensures
        r == ends_with(s@, p@),
{
    if p.len() > s.len() {
        return false;
    }
    matches_at_exec(s, p, s.len() - p.len())
}

/// `str::contains`.
pub fn contains_exec(s: &[char], p: &[char]) -> (r: bool)
    ensures
        r == (find(s@, p@) is Some),
{
    find_exec(s, p).is_some()
}

/// `str::strip_prefix`.
pub fn strip_prefix_exec(s: &[char], p: &[char]) -> (r: Option<Vec<char>>)
    ensures
        opt_chars(r) == strip_prefix(s@, p@),
{
    if starts_with_exec(s, p) {
        Some(slice_chars(s, p.len(), s.len()))
    } else {
        None
    }
}

/// `str::strip_suffix`.
pub fn strip_suffix_exec(s: &[char], p: &[char]) -> (r: Option<Vec<char>>)
    ensures
        opt_chars(r) == strip_suffix(s@, p@),
{
    if ends_with_exec(s, p) {
        Some(slice_chars(s, 0, s.len() - p.len()))
    } else {
        None
    }
}

/// `str::split_once`.
pub fn split_once_exec(s: &[char], p: &[char]) -> (r: Option<(Vec<char>, Vec<char>)>)
    ensures
        opt_pair(r) == split_once(s@, p@),
{
    proof {
        lemma_find_from_bounds(s@, p@, 0);
    }
    match find_exec(s, p) {
        Some(i) => {
            assert(find(s@, p@) == Some(i as int));
            let plen = p.len();
            let slen = s.len();
            assert(i + plen <= slen);
            Some((slice_chars(s, 0, i), slice_chars(s, i + plen, slen)))
        },
        None => None,
    }
}

/// `str::replace`.
pub fn replace_exec(s: &[char], f: &[char], t: &[char]) -> (r: Vec<char>)
    ensures
        r@ == replace(s@, f@, t@),
{
    if f.len() == 0 {
        let mut out = slice_chars(t, 0, t.len());
        let mut i: usize = 0;
        assert(t@.subrange(0, t@.len() as int) =~= t@);
        assert(s@.subrange(0, 0) =~= Seq::<char>::empty());
        while i < s.len()
            invariant
                i <= s@.len(),
                out@ == interleave(s@.subrange(0, i as int), t@),
            decreases s.len() - i,
        {
            assert(s@.subrange(0, i + 1).drop_last() =~= s@.subrange(0, i as int));
            out.push(s[i]);
            extend(&mut out, t);
            i = i + 1;
        }
        assert(s@.subrange(0, s@.len() as int) =~= s@);
        return out;
    }
    let mut out: Vec<char> = Vec::new();
    let mut pos: usize = 0;
    loop
        invariant
            f@.len() > 0,
            pos <= s@.len(),
            replace_from(s@, f@, t@, 0) == out@ + replace_from(s@, f@, t@, pos as int),
        decreases s.len() + 1 - pos,
    {
        proof {
            lemma_find_from_bounds(s@, f@, pos as int);
        }
        match find_from_exec(s, f, pos) {
            Some(j) => {
                let ghost before = out@;
                let piece = slice_chars(s, pos, j);
                extend(&mut out, &piece);
                extend(&mut out, t);
                assert(out@ + replace_from(s@, f@, t@, (j + f@.len()) as int)
                    =~= before + replace_from(s@, f@, t@, pos as int));
                pos = j + f.len();
            },
            None => {
                let rest = slice_chars(s, pos, s.len());
                extend(&mut out, &rest);
                assert(out@ =~= replace_from(s@, f@, t@, 0));
                return out;
            },
        }
    }
}

/// `i64::from_str`.
pub fn parse_i64_exec(s: &[char]) -> (r: Option<i64>)
    ensures
        r == parse_i64(s@),
{
    let n = s.len();
    if n == 0 {
        return None;
    }
    let neg = s[0] == '-';
    let start: usize = if s[0] == '-' || s[0] == '+' { 1 } else { 0 };
    if start == n {
        return None;
    }
    let limit: u128 = 9223372036854775808u128;
    let mut acc: u128 = 0;
    let mut big = false;
    let mut i = start;
    assert(s@.subrange(start as int, start as int) =~= Seq::<char>::empty());
    while i < n
        invariant
            start <= i <= n,
            n == s@.len(),
            all_digits(s@.subrange(start as int, i as int)),
            !big ==> acc == digits_value(s@.subrange(start as int, i as int)) && acc <= limit,
            big ==> digits_value(s@.subrange(start as int, i as int)) > limit,
            limit == 9223372036854775808u128,
            start == 0 || start == 1,
            (start == 1) == (s@[0] == '-' || s@[0] == '+'),
            neg == (s@[0] == '-'),
        decreases n - i,
    {
        let c = s[i];
        if !('0' <= c && c <= '9') {
            proof {
                let d = s@.subrange(start as int, n as int);
                assert(d[i - start] == c);
                if start == 1 {
                    assert(d =~= s@.drop_first());
                } else {
                    assert(d =~= s@);
                }
            }
            return None;
        }
        let ghost prefix = s@.subrange(start as int, i as int);
        assert(s@.subrange(start as int, i + 1).drop_last() =~= prefix);
        assert(s@.subrange(start as int, i + 1).last() == c);
        proof {
            lemma_digits_value_nonneg(prefix);
        }
        if !big {
            let d = (c as u32 - 48) as u128;
            let next = acc * 10 + d;
            if next > limit {
                big = true;
            } else {
                acc = next;
            }
        } else {
            let ghost v = digits_value(prefix);
            assert(v * 10 + ((c as u32) - 48) > limit) by (nonlinear_arith)
                requires
                    v > limit,
                    limit > 0,
                    (c as u32) >= 48,
            ;
        }
        i = i + 1;
    }
    proof {
        let d = s@.subrange(start as int, n as int);
        if start == 1 {
            assert(d =~= s@.drop_first());
        } else {
            assert(d =~= s@);
        }
    }
    if big {
        return None;
    }
    if neg {
        Some((0i128 - (acc as i128)) as i64)
    } else if acc > 9223372036854775807u128 {
        None
    } else {
        Some(acc as i64)
    }
}

} // verus!

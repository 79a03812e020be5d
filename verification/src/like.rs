//! CQL `LIKE` matching: `%` matches any run of characters, `_` exactly one.
use vstd::prelude::*;
use crate::text::chars_of;

verus! {

/// Whether the first `i` characters of `pattern` match the first `j` of `value`.
pub open spec fn like_prefix(pattern: Seq<char>, value: Seq<char>, i: int, j: int) -> bool
    decreases i + j,
{
    if i <= 0 {
        j == 0
    } else if j < 0 {
        false
    } else if pattern[i - 1] == '%' {
        like_prefix(pattern, value, i - 1, j) || (j > 0 && like_prefix(pattern, value, i, j - 1))
    } else if j == 0 {
        false
    } else if pattern[i - 1] == '_' {
        like_prefix(pattern, value, i - 1, j - 1)
    } else {
        pattern[i - 1] == value[j - 1] && like_prefix(pattern, value, i - 1, j - 1)
    }
}

/// Whether `value` matches the `LIKE` pattern `pattern`.
pub open spec fn like_spec(value: Seq<char>, pattern: Seq<char>) -> bool {
    like_prefix(pattern, value, pattern.len() as int, value.len() as int)
}

/// Whether `value` matches the `LIKE` pattern `pattern`.
pub fn like_matches(value: &str, pattern: &str) -> (r: bool)
    ensures
        r == like_spec(value@, pattern@),
{
    let v = chars_of(value);
    let p = chars_of(pattern);
    let n = v.len();
    // Row 0: only the empty value matches the empty pattern.
    let mut prev: Vec<bool> = Vec::new();
    prev.push(true);
    let mut j: usize = 0;
    while j < n
        invariant
            n == v@.len(),
            j <= n,
            prev@.len() == j + 1,
            forall|b: int| 0 <= b <= j ==> prev@[b] == like_prefix(p@, v@, 0, b),
        decreases n - j,
    {
        prev.push(false);
        j = j + 1;
    }
    let mut i: usize = 0;
    while i < p.len()
        invariant
            n == v@.len(),
            i <= p@.len(),
            prev@.len() == n + 1,
            forall|b: int| 0 <= b <= n ==> prev@[b] == like_prefix(p@, v@, i as int, b),
        decreases p@.len() - i,
    {
        let pc = p[i];
        let mut cur: Vec<bool> = Vec::new();
        let first = if pc == '%' { prev[0] } else { false };
        cur.push(first);
        let mut j: usize = 0;
        while j < n
            invariant
                n == v@.len(),
                i < p@.len(),
                pc == p@[i as int],
                j <= n,
                prev@.len() == n + 1,
                forall|b: int| 0 <= b <= n ==> prev@[b] == like_prefix(p@, v@, i as int, b),
                cur@.len() == j + 1,
                forall|b: int| 0 <= b <= j ==> cur@[b] == like_prefix(p@, v@, i + 1, b),
            decreases n - j,
        {
            let cell = if pc == '%' {
                prev[j + 1] || cur[j]
            } else if pc == '_' {
                prev[j]
            } else {
                prev[j] && pc == v[j]
            };
            cur.push(cell);
            j = j + 1;
        }
        prev = cur;
        i = i + 1;
    }
    prev[n]
}

/// `%` on its own matches every value.
pub proof fn lemma_percent_matches_everything(value: Seq<char>)
    ensures
        like_spec(value, seq!['%']),
{
    lemma_percent_prefix(value, value.len() as int);
}

proof fn lemma_percent_prefix(value: Seq<char>, j: int)
    requires
        0 <= j,
    ensures
        like_prefix(seq!['%'], value, 1, j),
    decreases j,
{
    assert(seq!['%'][0] == '%');
    assert(like_prefix(seq!['%'], value, 0, 0));
    if j > 0 {
        lemma_percent_prefix(value, j - 1);
    }
}

/// Whether a pattern has no wildcard.
pub open spec fn is_literal_pattern(pattern: Seq<char>) -> bool {
    forall|k: int| 0 <= k < pattern.len() ==> pattern[k] != '%' && pattern[k] != '_'
}

/// A pattern without wildcards matches exactly the value equal to it.
pub proof fn lemma_literal_pattern_is_equality(value: Seq<char>, pattern: Seq<char>)
    requires
        is_literal_pattern(pattern),
    ensures
        like_spec(value, pattern) <==> value == pattern,
{
    lemma_literal_prefix(value, pattern, pattern.len() as int, value.len() as int);
    if value.len() == pattern.len() {
        assert(value.subrange(0, value.len() as int) =~= value);
        assert(pattern.subrange(0, pattern.len() as int) =~= pattern);
    }
    if value == pattern {
        assert(value.subrange(0, value.len() as int) =~= pattern.subrange(0, pattern.len() as int));
    }
}

proof fn lemma_literal_prefix(value: Seq<char>, pattern: Seq<char>, i: int, j: int)
    requires
        is_literal_pattern(pattern),
        0 <= i <= pattern.len(),
        0 <= j <= value.len(),
    ensures
        like_prefix(pattern, value, i, j) <==> (i == j && pattern.subrange(0, i) == value.subrange(0, j)),
    decreases i + j,
{
    if i == 0 {
        if j == 0 {
            assert(pattern.subrange(0, 0) =~= value.subrange(0, 0));
        }
    } else if j > 0 {
        lemma_literal_prefix(value, pattern, i - 1, j - 1);
        if i == j && pattern.subrange(0, i) == value.subrange(0, j) {
            assert(pattern.subrange(0, i - 1) =~= pattern.subrange(0, i).drop_last());
            assert(value.subrange(0, j - 1) =~= value.subrange(0, j).drop_last());
            assert(pattern[i - 1] == pattern.subrange(0, i)[i - 1]);
            assert(value[j - 1] == value.subrange(0, j)[j - 1]);
        }
        if like_prefix(pattern, value, i, j) {
            assert(pattern.subrange(0, i) =~= pattern.subrange(0, i - 1).push(pattern[i - 1]));
            assert(value.subrange(0, j) =~= value.subrange(0, j - 1).push(value[j - 1]));
        }
    }
}

} // verus!

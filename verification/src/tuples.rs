//! Multi-column relations on clustering columns: `(c1, c2) op (v1, v2)`.
use vstd::prelude::*;
use crate::chars::{trim, strip_prefix, strip_suffix, trim_chars, strip_prefix_exec, strip_suffix_exec, eq_ignore_case_exec};
use crate::java_body::{comma_parts, arg_index, arg_index_from};
use crate::java_parse::{comma_parts_exec, chars_views};
use crate::relations::{RelationOp, bytes_eq, lex_less, lex_less_exec, lemma_lex_trichotomy};
use crate::text::{chars_of, string_from_chars};
use crate::types::{CqlType, ColumnMetadata, fixed_width, fixed_width_cql_type};

verus! {

broadcast use vstd::seq_lib::group_seq_properties;

/// The trimmed, non-empty pieces of `parts`, in order.
pub open spec fn kept_columns(parts: Seq<Seq<char>>) -> Seq<Seq<char>>
    decreases parts.len(),
{
    if parts.len() == 0 {
        seq![]
    } else {
        let rest = kept_columns(parts.drop_last());
        let t = trim(parts.last());
        if t.len() > 0 { rest.push(t) } else { rest }
    }
}

/// The columns of a relation written `(a, b, ...)`, when it names more than one.
pub open spec fn tuple_columns(column: Seq<char>) -> Option<Seq<Seq<char>>> {
    match strip_prefix(trim(column), "("@) {
        Some(a) => match strip_suffix(a, ")"@) {
            Some(inner) => {
                let cols = kept_columns(comma_parts(inner));
                if cols.len() > 1 { Some(cols) } else { None }
            },
            None => None,
        },
        None => None,
    }
}

/// The views of a sequence of strings.
pub open spec fn string_views(v: Seq<String>) -> Seq<Seq<char>> {
    v.map_values(|s: String| s@)
}

/// The columns of a relation written `(a, b, ...)`, when it names more than one.
pub fn relation_tuple_columns(column: &str) -> (r: Option<Vec<String>>)
    ensures
        match r {
            Some(v) => tuple_columns(column@) == Some(string_views(v@)),
            None => tuple_columns(column@) is None,
        },
{
    let c = chars_of(column);
    let t = trim_chars(&c);
    let mut open: Vec<char> = Vec::new();
    open.push('(');
    let mut close: Vec<char> = Vec::new();
    close.push(')');
    assert(open@ =~= "("@) by { reveal_strlit("("); }
    assert(close@ =~= ")"@) by { reveal_strlit(")"); }
    let a = match strip_prefix_exec(&t, &open) {
        Some(a) => a,
        None => return None,
    };
    let inner = match strip_suffix_exec(&a, &close) {
        Some(x) => x,
        None => return None,
    };
    let parts = comma_parts_exec(&inner);
    let ghost pv = chars_views(parts@);
    let mut out: Vec<String> = Vec::new();
    let mut k: usize = 0;
    while k < parts.len()
        invariant
            k <= parts@.len(),
            pv == chars_views(parts@),
            string_views(out@) == kept_columns(pv.subrange(0, k as int)),
        decreases parts.len() - k,
    {
        let piece = trim_chars(&parts[k]);
        assert(pv.subrange(0, k + 1).drop_last() =~= pv.subrange(0, k as int));
        if piece.len() > 0 {
            out.push(string_from_chars(&piece));
            assert(string_views(out@) =~= kept_columns(pv.subrange(0, k as int)).push(piece@));
        }
        k = k + 1;
    }
    assert(pv.subrange(0, pv.len() as int) =~= pv);
    if out.len() > 1 {
        Some(out)
    } else {
        None
    }
}

/// The names of the clustering columns.
pub open spec fn column_names(cols: Seq<ColumnMetadata>) -> Seq<Seq<char>> {
    cols.map_values(|c: ColumnMetadata| c.name@)
}

/// Whether every column before position `n` has a fixed width.
pub open spec fn all_fixed(cols: Seq<ColumnMetadata>, n: int) -> bool {
    forall|i: int| 0 <= i < n ==> #[trigger] fixed_width(cols[i].column_type) is Some
}

/// The width of column `i`, or 0 when it has none.
pub open spec fn width_of(cols: Seq<ColumnMetadata>, i: int) -> nat {
    match fixed_width(cols[i].column_type) {
        Some(w) => w,
        None => 0,
    }
}

/// Where column `i` starts in a clustering key made of fixed-width parts.
pub open spec fn column_offset(cols: Seq<ColumnMetadata>, i: int) -> nat
    decreases i,
{
    if i <= 0 { 0 } else { column_offset(cols, i - 1) + width_of(cols, i - 1) }
}

/// The bytes of column `i` inside `key`.
pub open spec fn segment(cols: Seq<ColumnMetadata>, key: Seq<u8>, i: int) -> Seq<u8> {
    key.subrange(column_offset(cols, i) as int, (column_offset(cols, i) + width_of(cols, i)) as int)
}

/// The bytes of the requested columns, each taken from the first column of that name.
pub open spec fn selected_bytes(cols: Seq<ColumnMetadata>, key: Seq<u8>, requested: Seq<Seq<char>>) -> Seq<u8>
    decreases requested.len(),
{
    if requested.len() == 0 {
        seq![]
    } else {
        let rest = selected_bytes(cols, key, requested.drop_last());
        match arg_index(requested.last(), column_names(cols)) {
            Some(i) => rest + segment(cols, key, i),
            None => rest,
        }
    }
}

/// Whether the requested columns are all the clustering columns, in order.
pub open spec fn in_order(cols: Seq<ColumnMetadata>, requested: Seq<Seq<char>>) -> bool {
    cols.len() == requested.len() && (forall|j: int| 0 <= j < requested.len()
        ==> #[trigger] crate::chars::eq_ignore_case(cols[j].name@, requested[j]))
}

/// The clustering-key bytes of the requested columns: the whole key when all
/// columns are asked in order; otherwise the key is split by fixed widths.
pub open spec fn clustering_tuple(cols: Seq<ColumnMetadata>, requested: Seq<Seq<char>>, key: Seq<u8>) -> Option<Seq<u8>> {
    if exists|j: int| 0 <= j < requested.len() && #[trigger] arg_index(requested[j], column_names(cols)) is None {
        None
    } else if in_order(cols, requested) {
        Some(key)
    } else if all_fixed(cols, cols.len() as int) && column_offset(cols, cols.len() as int) == key.len() {
        Some(selected_bytes(cols, key, requested))
    } else {
        None
    }
}

fn find_column(cols: &[ColumnMetadata], name: &String) -> (r: Option<usize>)
    ensures
        match r {
            Some(i) => arg_index(name@, column_names(cols@)) == Some(i as int) && i < cols@.len(),
            None => arg_index(name@, column_names(cols@)) is None,
        },
{
    let nc = chars_of(name.as_str());
    let mut i: usize = 0;
    while i < cols.len()
        invariant
            i <= cols@.len(),
            nc@ == name@,
            arg_index(name@, column_names(cols@)) == arg_index_from(name@, column_names(cols@), i as int),
        decreases cols.len() - i,
    {
        let cn = chars_of(cols[i].name.as_str());
        assert(column_names(cols@)[i as int] == cn@);
        if eq_ignore_case_exec(&cn, &nc) {
            return Some(i);
        }
        i = i + 1;
    }
    None
}

proof fn lemma_offset_monotone(cols: Seq<ColumnMetadata>, i: int, j: int)
    requires
        0 <= i <= j,
    ensures
        column_offset(cols, i) <= column_offset(cols, j),
    decreases j - i,
{
    if i < j {
        lemma_offset_monotone(cols, i, j - 1);
    }
}

/// The clustering-key bytes of the requested columns, or `None` when a
/// requested column is not a clustering column or the key cannot be split.
#[verifier::rlimit(30)]
pub fn clustering_tuple_bytes(cols: &[ColumnMetadata], requested: &[String], key: &[u8]) -> (r: Option<Vec<u8>>)
    ensures
        match r {
            Some(v) => clustering_tuple(cols@, string_views(requested@), key@) == Some(v@),
            None => clustering_tuple(cols@, string_views(requested@), key@) is None,
        },
{
    let ghost names = column_names(cols@);
    let ghost req = string_views(requested@);
    // Every requested column must be a clustering column.
    let mut j: usize = 0;
    while j < requested.len()
        invariant
            j <= requested@.len(),
            names == column_names(cols@),
            req == string_views(requested@),
            forall|x: int| 0 <= x < j ==> #[trigger] arg_index(req[x], names) is Some,
        decreases requested.len() - j,
    {
        if find_column(cols, &requested[j]).is_none() {
            assert(arg_index(req[j as int], names) is None);
            return None;
        }
        j = j + 1;
    }
    // All columns, in order: the whole key.
    let mut all = cols.len() == requested.len();
    let mut k: usize = 0;
    while all && k < cols.len()
        invariant
            k <= cols@.len(),
            all ==> cols@.len() == requested@.len(),
            all ==> forall|x: int| 0 <= x < k ==> #[trigger] crate::chars::eq_ignore_case(cols@[x].name@, req[x]),
            !all ==> !in_order(cols@, req),
            req == string_views(requested@),
        decreases cols.len() - k,
    {
        let a = chars_of(cols[k].name.as_str());
        let b = chars_of(requested[k].as_str());
        assert(b@ == req[k as int]);
        if !eq_ignore_case_exec(&a, &b) {
            all = false;
            assert(!crate::chars::eq_ignore_case(cols@[k as int].name@, req[k as int]));
        }
        k = k + 1;
    }
    if all {
        let mut out: Vec<u8> = Vec::new();
        let mut i: usize = 0;
        while i < key.len()
            invariant
                i <= key@.len(),
                out@ == key@.subrange(0, i as int),
            decreases key.len() - i,
        {
            out.push(key[i]);
            i = i + 1;
        }
        assert(key@.subrange(0, key@.len() as int) =~= key@);
        return Some(out);
    }
    // Split the key by fixed widths.
    let mut starts: Vec<usize> = Vec::new();
    let mut widths: Vec<usize> = Vec::new();
    let mut offset: usize = 0;
    let mut c: usize = 0;
    while c < cols.len()
        invariant
            c <= cols@.len(),
            names == column_names(cols@),
            req == string_views(requested@),
            forall|x: int| 0 <= x < requested@.len() ==> #[trigger] arg_index(req[x], names) is Some,
            !in_order(cols@, req),
            offset == column_offset(cols@, c as int),
            offset <= key@.len(),
            all_fixed(cols@, c as int),
            starts@.len() == c,
            widths@.len() == c,
            forall|x: int| 0 <= x < c ==> #[trigger] starts@[x] == column_offset(cols@, x) && widths@[x] == width_of(cols@, x),
        decreases cols.len() - c,
    {
        let w = match fixed_width_cql_type(&cols[c].column_type) {
            Some(w) => w,
            None => return None,
        };
        if w > key.len() - offset {
            proof {
                lemma_offset_monotone(cols@, c + 1, cols@.len() as int);
            }
            return None;
        }
        starts.push(offset);
        widths.push(w);
        offset = offset + w;
        c = c + 1;
    }
    if offset != key.len() {
        return None;
    }
    let mut out: Vec<u8> = Vec::new();
    let mut j: usize = 0;
    while j < requested.len()
        invariant
            j <= requested@.len(),
            names == column_names(cols@),
            req == string_views(requested@),
            forall|x: int| 0 <= x < requested@.len() ==> #[trigger] arg_index(req[x], names) is Some,
            starts@.len() == cols@.len(),
            widths@.len() == cols@.len(),
            forall|x: int| 0 <= x < cols@.len() ==> #[trigger] starts@[x] == column_offset(cols@, x) && widths@[x] == width_of(cols@, x),
            all_fixed(cols@, cols@.len() as int),
            column_offset(cols@, cols@.len() as int) == key@.len(),
            out@ == selected_bytes(cols@, key@, req.subrange(0, j as int)),
        decreases requested.len() - j,
    {
        let idx = match find_column(cols, &requested[j]) {
            Some(i) => i,
            None => {
                assert(arg_index(req[j as int], names) is Some);
                return None;
            },
        };
        let s = starts[idx];
        let w = widths[idx];
        proof {
            lemma_offset_monotone(cols@, idx + 1, cols@.len() as int);
            assert(req.subrange(0, j + 1).drop_last() =~= req.subrange(0, j as int));
        }
        let ghost before = out@;
        let n = key.len();
        let mut t: usize = 0;
        while t < w
            invariant
                n == key@.len(),
                starts@.len() == cols@.len(),
                widths@.len() == cols@.len(),
                forall|x: int| 0 <= x < cols@.len() ==> #[trigger] starts@[x] == column_offset(cols@, x) && widths@[x] == width_of(cols@, x),
                t <= w,
                s + w <= key@.len(),
                out@ == before + key@.subrange(s as int, s + t),
            decreases w - t,
        {
            out.push(key[s + t]);
            t = t + 1;
            assert(out@ =~= before + key@.subrange(s as int, s + t));
        }
        j = j + 1;
    }
    assert(req.subrange(0, req.len() as int) =~= req);
    Some(out)
}

/// Whether the clustering bytes of a row satisfy a multi-column relation,
/// given the encoded right-hand side values.
pub open spec fn tuple_relation_holds(op: RelationOp, current: Seq<u8>, expected: Seq<Seq<u8>>) -> bool {
    match op {
        RelationOp::Eq => expected.len() > 0 && current == expected[0],
        RelationOp::Neq => expected.len() == 0 || current != expected[0],
        RelationOp::Lt => expected.len() > 0 && lex_less(current, expected[0]),
        RelationOp::Gt => expected.len() > 0 && lex_less(expected[0], current),
        RelationOp::Lte => expected.len() > 0 && !lex_less(expected[0], current),
        RelationOp::Gte => expected.len() > 0 && !lex_less(current, expected[0]),
        RelationOp::In => expected.contains(current),
        _ => false,
    }
}

/// Whether a row satisfies the multi-column relation on `column`: true when
/// `column` is not a tuple of columns, false when the row's clustering key
/// cannot give the requested columns, else the comparison with `expected`.
pub open spec fn tuple_relation_spec(cols: Seq<ColumnMetadata>, column: Seq<char>, op: RelationOp, key: Seq<u8>, expected: Seq<Seq<u8>>) -> bool {
    match tuple_columns(column) {
        None => true,
        Some(requested) => match clustering_tuple(cols, requested, key) {
            None => false,
            Some(current) => tuple_relation_holds(op, current, expected),
        },
    }
}

/// Whether a row satisfies a multi-column relation on its clustering columns.
pub fn tuple_relation_matches(cols: &[ColumnMetadata], column: &str, op: RelationOp, key: &[u8], expected: &[Vec<u8>]) -> (r: bool)
    ensures
        r == tuple_relation_spec(cols@, column@, op, key@, expected.deep_view()),
{
    let ghost exp = expected.deep_view();
    let requested = match relation_tuple_columns(column) {
        Some(v) => v,
        None => return true,
    };
    let current = match clustering_tuple_bytes(cols, requested.as_slice(), key) {
        Some(c) => c,
        None => return false,
    };
    proof {
        assert forall|i: int| 0 <= i < expected@.len() implies #[trigger] exp[i] == expected@[i]@ by {
            assert(expected@[i].deep_view() =~= expected@[i]@);
        }
    }
    match op {
        RelationOp::Eq => expected.len() > 0 && bytes_eq(current.as_slice(), expected[0].as_slice()),
        RelationOp::Neq => expected.len() == 0 || !bytes_eq(current.as_slice(), expected[0].as_slice()),
        RelationOp::Lt => expected.len() > 0 && lex_less_exec(current.as_slice(), expected[0].as_slice()),
        RelationOp::Gt => expected.len() > 0 && lex_less_exec(expected[0].as_slice(), current.as_slice()),
        RelationOp::Lte => expected.len() > 0 && !lex_less_exec(expected[0].as_slice(), current.as_slice()),
        RelationOp::Gte => expected.len() > 0 && !lex_less_exec(current.as_slice(), expected[0].as_slice()),
        RelationOp::In => {
            let mut i: usize = 0;
            while i < expected.len()
                invariant
                    i <= expected@.len(),
                    op == RelationOp::In,
                    exp == expected.deep_view(),
                    tuple_columns(column@) == Some(string_views(requested@)),
                    clustering_tuple(cols@, string_views(requested@), key@) == Some(current@),
                    forall|x: int| 0 <= x < expected@.len() ==> #[trigger] exp[x] == expected@[x]@,
                    forall|x: int| 0 <= x < i ==> exp[x] != current@,
                decreases expected.len() - i,
            {
                if bytes_eq(current.as_slice(), expected[i].as_slice()) {
                    assert(exp[i as int] == current@);
                    return true;
                }
                i = i + 1;
            }
            false
        },
        _ => false,
    }
}

} // verus!

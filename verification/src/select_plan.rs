//! How a `SELECT` reaches its rows: the partition its key relations name,
//! the indexes its other relations can use, the slice of clustering keys
//! it reads, and the shape of its result.
use vstd::prelude::*;
use crate::cells::Row;
use crate::error::ExecutorError;
use crate::masks::{listed, listed_exec};
use crate::options::{is_vector_index, vector_index};
use crate::relations::{lex_less, lex_less_exec, RelationOp};
use crate::schema::{first_match, lemma_first_match, lemma_first_match_prefix, IndexEntry};
use crate::selectors::{aggregate_name, aggregate_selector_name, is_count_selector, unaliased, Selector};
use crate::text::{push_str, str_eq};

verus! {

broadcast use vstd::seq_lib::group_seq_properties;

/// A relation of a `WHERE` clause with its value encoded (`None` where the
/// value has no encoding).
#[derive(Debug)]
pub struct KeyRelation {
    pub column: String,
    pub op: RelationOp,
    pub value: Option<Vec<u8>>,
}

// ─── partition key and index searches ───────────────────────────────────

/// The partition key bytes: the encoded values of the relations on
/// partition key columns, in the order of the relations.
pub open spec fn partition_key_bytes(relations: Seq<KeyRelation>, pk_names: Seq<String>) -> Seq<u8>
    decreases relations.len(),
{
    if relations.len() == 0 {
        seq![]
    } else {
        let rest = partition_key_bytes(relations.drop_last(), pk_names);
        let r = relations.last();
        match r.value {
            Some(v) => if listed(pk_names, r.column@) { rest + v@ } else { rest },
            None => rest,
        }
    }
}

pub open spec fn index_on(column: Seq<char>) -> spec_fn(IndexEntry) -> bool {
    |i: IndexEntry| i.target@ == column
}

/// The index searches a `SELECT` can run: for each relation on a column
/// outside the partition key that an index targets, the relation's
/// position and the first such index's position.
pub open spec fn index_searches(relations: Seq<KeyRelation>, pk_names: Seq<String>, indexes: Seq<IndexEntry>) -> Seq<(int, int)>
    decreases relations.len(),
{
    if relations.len() == 0 {
        seq![]
    } else {
        let rest = index_searches(relations.drop_last(), pk_names, indexes);
        let r = relations.last();
        if listed(pk_names, r.column@) {
            rest
        } else {
            match first_match(indexes, index_on(r.column@)) {
                Some(j) => rest.push((relations.len() - 1, j)),
                None => rest,
            }
        }
    }
}

fn find_index_on(indexes: &[IndexEntry], column: &str) -> (r: Option<usize>)
    ensures
        match r {
            Some(j) => first_match(indexes@, index_on(column@)) == Some(j as int),
            None => first_match(indexes@, index_on(column@)) is None,
        },
{
    let mut i: usize = 0;
    while i < indexes.len()
        invariant
            i <= indexes@.len(),
            first_match(indexes@.subrange(0, i as int), index_on(column@)) is None,
        decreases indexes.len() - i,
    {
        assert(indexes@.subrange(0, i + 1).drop_last() =~= indexes@.subrange(0, i as int));
        if str_eq(indexes[i].target.as_str(), column) {
            proof { lemma_first_match_prefix(indexes@, index_on(column@), i + 1); }
            return Some(i);
        }
        i = i + 1;
    }
    assert(indexes@.subrange(0, indexes@.len() as int) =~= indexes@);
    None
}

pub open spec fn pair_ints(v: Seq<(usize, usize)>) -> Seq<(int, int)> {
    Seq::new(v.len(), |i: int| (v[i].0 as int, v[i].1 as int))
}

/// The partition key a `SELECT` reads and the index searches it can run
/// instead; `indexes` are those of the table.
pub fn route_select(relations: &[KeyRelation], pk_names: &[String], indexes: &[IndexEntry]) -> (r: (Vec<u8>, Vec<(usize, usize)>))
    ensures
        r.0@ == partition_key_bytes(relations@, pk_names@),
        pair_ints(r.1@) == index_searches(relations@, pk_names@, indexes@),
{
    let mut key: Vec<u8> = Vec::new();
    let mut searches: Vec<(usize, usize)> = Vec::new();
    let mut i: usize = 0;
    while i < relations.len()
        invariant
            i <= relations@.len(),
            key@ == partition_key_bytes(relations@.subrange(0, i as int), pk_names@),
            pair_ints(searches@) == index_searches(relations@.subrange(0, i as int), pk_names@, indexes@),
        decreases relations.len() - i,
    {
        assert(relations@.subrange(0, i + 1).drop_last() =~= relations@.subrange(0, i as int));
        let rel = &relations[i];
        if listed_exec(pk_names, rel.column.as_str()) {
            match &rel.value {
                Some(v) => {
                    let mut j: usize = 0;
                    let ghost before = key@;
                    while j < v.len()
                        invariant
                            j <= v@.len(),
                            key@ == before + v@.subrange(0, j as int),
                        decreases v.len() - j,
                    {
                        key.push(v[j]);
                        j = j + 1;
                        assert(key@ =~= before + v@.subrange(0, j as int));
                    }
                    assert(v@.subrange(0, v@.len() as int) =~= v@);
                },
                None => {},
            }
        } else {
            match find_index_on(indexes, rel.column.as_str()) {
                Some(j) => {
                    searches.push((i, j));
                },
                None => {},
            }
        }
        assert(pair_ints(searches@) =~= index_searches(relations@.subrange(0, i + 1), pk_names@, indexes@));
        i = i + 1;
    }
    assert(relations@.subrange(0, relations@.len() as int) =~= relations@);
    (key, searches)
}

pub open spec fn vector_index_on(column: Seq<char>) -> spec_fn(IndexEntry) -> bool {
    |i: IndexEntry| i.target@ == column && vector_index(i.options@)
}

/// The index an `ORDER BY ... ANN OF` query searches: the first vector
/// index on its column.
pub fn ann_search_index(column: &str, indexes: &[IndexEntry]) -> (r: Result<usize, ExecutorError>)
    ensures
        match first_match(indexes@, vector_index_on(column@)) {
            Some(j) => r == Ok::<usize, ExecutorError>(j as usize),
            None => r matches Err(ExecutorError::InvalidQuery(m))
                && m@ == "ANN ORDER BY requires a vector index on the target column"@,
        },
{
    let mut i: usize = 0;
    while i < indexes.len()
        invariant
            i <= indexes@.len(),
            first_match(indexes@.subrange(0, i as int), vector_index_on(column@)) is None,
        decreases indexes.len() - i,
    {
        assert(indexes@.subrange(0, i + 1).drop_last() =~= indexes@.subrange(0, i as int));
        if str_eq(indexes[i].target.as_str(), column) && is_vector_index(indexes[i].options.as_slice()) {
            proof { lemma_first_match_prefix(indexes@, vector_index_on(column@), i + 1); }
            return Ok(i);
        }
        i = i + 1;
    }
    assert(indexes@.subrange(0, indexes@.len() as int) =~= indexes@);
    let mut m = String::new();
    push_str(&mut m, "ANN ORDER BY requires a vector index on the target column");
    Err(ExecutorError::InvalidQuery(m))
}

// ─── clustering slice ───────────────────────────────────────────────────

/// The clustering keys a single-partition `SELECT` reads: between `lower`
/// and `upper` (each absent, inclusive or not), in byte order.
#[derive(Debug)]
pub struct ClusteringSlice {
    pub lower: Option<Vec<u8>>,
    pub lower_inclusive: bool,
    pub upper: Option<Vec<u8>>,
    pub upper_inclusive: bool,
}

/// The bounds as views: lower, lower inclusive, upper, upper inclusive.
pub type SliceBounds = (Option<Seq<u8>>, bool, Option<Seq<u8>>, bool);

/// The bounds after the relations, each relation on a clustering column
/// with an encoded value setting the bounds its operator names; a later
/// relation overrides an earlier one.
pub open spec fn slice_bounds(relations: Seq<KeyRelation>, ck_names: Seq<String>) -> SliceBounds
    decreases relations.len(),
{
    if relations.len() == 0 {
        (None, true, None, true)
    } else {
        let (lo, lo_inc, hi, hi_inc) = slice_bounds(relations.drop_last(), ck_names);
        let r = relations.last();
        match r.value {
            Some(v) => if listed(ck_names, r.column@) {
                match r.op {
                    RelationOp::Eq => (Some(v@), lo_inc, Some(v@), hi_inc),
                    RelationOp::Gt => (Some(v@), false, hi, hi_inc),
                    RelationOp::Gte => (Some(v@), lo_inc, hi, hi_inc),
                    RelationOp::Lt => (lo, lo_inc, Some(v@), false),
                    RelationOp::Lte => (lo, lo_inc, Some(v@), hi_inc),
                    _ => (lo, lo_inc, hi, hi_inc),
                }
            } else {
                (lo, lo_inc, hi, hi_inc)
            },
            None => (lo, lo_inc, hi, hi_inc),
        }
    }
}

pub open spec fn opt_bytes(o: Option<Vec<u8>>) -> Option<Seq<u8>> {
    match o {
        Some(v) => Some(v@),
        None => None,
    }
}

pub open spec fn slice_view(s: ClusteringSlice) -> SliceBounds {
    (opt_bytes(s.lower), s.lower_inclusive, opt_bytes(s.upper), s.upper_inclusive)
}

fn copy_bytes(v: &Vec<u8>) -> (r: Vec<u8>)
    ensures
        r@ == v@,
{
    let mut out: Vec<u8> = Vec::new();
    let mut i: usize = 0;
    while i < v.len()
        invariant
            i <= v@.len(),
            out@ == v@.subrange(0, i as int),
        decreases v.len() - i,
    {
        out.push(v[i]);
        i = i + 1;
        assert(out@ =~= v@.subrange(0, i as int));
    }
    assert(v@.subrange(0, v@.len() as int) =~= v@);
    out
}

/// The clustering slice the relations of a `WHERE` clause select.
pub fn clustering_slice(relations: &[KeyRelation], ck_names: &[String]) -> (r: ClusteringSlice)
    ensures
        slice_view(r) == slice_bounds(relations@, ck_names@),
{
    let mut s = ClusteringSlice { lower: None, lower_inclusive: true, upper: None, upper_inclusive: true };
    let mut i: usize = 0;
    while i < relations.len()
        invariant
            i <= relations@.len(),
            slice_view(s) == slice_bounds(relations@.subrange(0, i as int), ck_names@),
        decreases relations.len() - i,
    {
        assert(relations@.subrange(0, i + 1).drop_last() =~= relations@.subrange(0, i as int));
        let rel = &relations[i];
        if listed_exec(ck_names, rel.column.as_str()) {
            match &rel.value {
                Some(v) => {
                    match rel.op {
                        RelationOp::Eq => {
                            s.lower = Some(copy_bytes(v));
                            s.upper = Some(copy_bytes(v));
                        },
                        RelationOp::Gt => {
                            s.lower = Some(copy_bytes(v));
                            s.lower_inclusive = false;
                        },
                        RelationOp::Gte => {
                            s.lower = Some(copy_bytes(v));
                        },
                        RelationOp::Lt => {
                            s.upper = Some(copy_bytes(v));
                            s.upper_inclusive = false;
                        },
                        RelationOp::Lte => {
                            s.upper = Some(copy_bytes(v));
                        },
                        _ => {},
                    }
                },
                None => {},
            }
        }
        i = i + 1;
    }
    assert(relations@.subrange(0, relations@.len() as int) =~= relations@);
    s
}

/// Whether a clustering key lies inside the slice.
pub open spec fn in_slice(ck: Seq<u8>, b: SliceBounds) -> bool {
    let (lo, lo_inc, hi, hi_inc) = b;
    &&& match lo {
        Some(l) => if lo_inc { !lex_less(ck, l) } else { lex_less(l, ck) },
        None => true,
    }
    &&& match hi {
        Some(h) => if hi_inc { !lex_less(h, ck) } else { lex_less(ck, h) },
        None => true,
    }
}

pub open spec fn row_in_slice(b: SliceBounds) -> spec_fn(Row) -> bool {
    |row: Row| in_slice(row.clustering_key@, b)
}

fn in_slice_exec(ck: &[u8], s: &ClusteringSlice) -> (r: bool)
    ensures
        r == in_slice(ck@, slice_view(*s)),
{
    let start_ok = match &s.lower {
        Some(l) => if s.lower_inclusive { !lex_less_exec(ck, l.as_slice()) } else { lex_less_exec(l.as_slice(), ck) },
        None => true,
    };
    let end_ok = match &s.upper {
        Some(h) => if s.upper_inclusive { !lex_less_exec(h.as_slice(), ck) } else { lex_less_exec(ck, h.as_slice()) },
        None => true,
    };
    start_ok && end_ok
}

/// The live rows of a partition that lie in the slice, in clustering order,
/// or in reverse where the query orders some clustering column descending.
pub fn slice_rows(rows: Vec<Row>, slice: &ClusteringSlice, descending: bool) -> (r: Vec<Row>)
    ensures
        r@ == if descending {
            rows@.filter(row_in_slice(slice_view(*slice))).reverse()
        } else {
            rows@.filter(row_in_slice(slice_view(*slice)))
        },
{
    let ghost all = rows@;
    let ghost keep = row_in_slice(slice_view(*slice));
    let mut kept: Vec<Row> = Vec::new();
    let mut rest = rows;
    let mut k: usize = 0;
    assert(all.len() == rest.len());
    while rest.len() > 0
        invariant
            k <= all.len() <= usize::MAX,
            keep == row_in_slice(slice_view(*slice)),
            rest@ == all.subrange(k as int, all.len() as int),
            kept@ == all.subrange(0, k as int).filter(keep),
        decreases rest.len(),
    {
        assert(k < all.len());
        let row = rest.remove(0);
        proof {
            reveal(Seq::filter);
            assert(all.subrange(0, k + 1).drop_last() =~= all.subrange(0, k as int));
            assert(row == all[k as int]);
        }
        if in_slice_exec(row.clustering_key.as_slice(), slice) {
            kept.push(row);
        }
        k = k + 1;
        assert(rest@ =~= all.subrange(k as int, all.len() as int));
    }
    assert(all.subrange(0, all.len() as int) =~= all);
    if descending {
        let ghost forward = kept@;
        let mut reversed: Vec<Row> = Vec::new();
        while kept.len() > 0
            invariant
                forward.len() == kept@.len() + reversed@.len(),
                kept@ == forward.subrange(0, kept@.len() as int),
                reversed@ == forward.subrange(kept@.len() as int, forward.len() as int).reverse(),
            decreases kept.len(),
        {
            let row = kept.pop().unwrap();
            reversed.push(row);
            assert(kept@ =~= forward.subrange(0, kept@.len() as int));
            assert(reversed@ =~= forward.subrange(kept@.len() as int, forward.len() as int).reverse());
        }
        assert(forward.subrange(0, forward.len() as int) =~= forward);
        reversed
    } else {
        kept
    }
}

// ─── result shape ───────────────────────────────────────────────────────

/// The most rows a `SELECT` returns: its `LIMIT` as an unsigned count, or no limit.
pub fn select_row_limit(limit: Option<i64>) -> (r: usize)
    ensures
        r == match limit {
            Some(l) => l as usize,
            None => usize::MAX,
        },
{
    match limit {
        Some(l) => l as usize,
        None => usize::MAX,
    }
}

/// Whether a `SELECT` is a plain `COUNT(*)`: one count selector and no
/// grouping. `selectors` is empty for `SELECT *`.
pub fn select_is_count(selectors: &[Selector], group_by_empty: bool) -> (r: bool)
    ensures
        r == (selectors@.len() == 1 && unaliased(selectors@[0]) is Count && group_by_empty),
{
    selectors.len() == 1 && is_count_selector(&selectors[0]) && group_by_empty
}

/// Whether the selector at `i` aggregates.
pub open spec fn aggregates_at(selectors: Seq<Selector>, user_aggregates: Seq<bool>, i: int) -> bool {
    aggregate_name(selectors[i]) is Some || (i < user_aggregates.len() && user_aggregates[i])
}

/// Whether a `SELECT` aggregates: some selector is a built-in aggregate or
/// resolved to a user-defined aggregate (`user_aggregates`, by selector).
/// `selectors` is empty for `SELECT *`.
pub fn select_has_aggregates(selectors: &[Selector], user_aggregates: &[bool]) -> (r: bool)
    ensures
        r == exists|i: int| 0 <= i < selectors@.len() && #[trigger] aggregates_at(selectors@, user_aggregates@, i),
{
    let mut i: usize = 0;
    while i < selectors.len()
        invariant
            i <= selectors@.len(),
            forall|j: int| 0 <= j < i ==> !#[trigger] aggregates_at(selectors@, user_aggregates@, j),
        decreases selectors.len() - i,
    {
        let builtin = match aggregate_selector_name(&selectors[i]) {
            Some(_) => true,
            None => false,
        };
        let user = i < user_aggregates.len() && user_aggregates[i];
        assert((builtin || user) == aggregates_at(selectors@, user_aggregates@, i as int));
        if builtin || user {
            return true;
        }
        i = i + 1;
    }
    false
}

/// The positions of the result columns that are partition key columns.
pub open spec fn key_positions(columns: Seq<String>, pk_names: Seq<String>) -> Seq<int>
    decreases columns.len(),
{
    if columns.len() == 0 {
        seq![]
    } else {
        let rest = key_positions(columns.drop_last(), pk_names);
        if listed(pk_names, columns.last()@) { rest.push(columns.len() - 1) } else { rest }
    }
}

pub fn key_result_indices(columns: &[String], pk_names: &[String]) -> (r: Vec<usize>)
    ensures
        r@.map_values(|i: usize| i as int) == key_positions(columns@, pk_names@),
{
    let mut out: Vec<usize> = Vec::new();
    let mut i: usize = 0;
    while i < columns.len()
        invariant
            i <= columns@.len(),
            out@.map_values(|i: usize| i as int) == key_positions(columns@.subrange(0, i as int), pk_names@),
        decreases columns.len() - i,
    {
        assert(columns@.subrange(0, i + 1).drop_last() =~= columns@.subrange(0, i as int));
        if listed_exec(pk_names, columns[i].as_str()) {
            out.push(i);
        }
        assert(out@.map_values(|i: usize| i as int) =~= key_positions(columns@.subrange(0, i + 1), pk_names@));
        i = i + 1;
    }
    assert(columns@.subrange(0, columns@.len() as int) =~= columns@);
    out
}

} // verus!

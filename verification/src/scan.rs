//! The rows a `SELECT` over a table scan picks: the live rows of each
//! partition, in order, that satisfy the `WHERE` clause, stopping early once
//! a plain (non-aggregating, non-`DISTINCT`) query has enough of them.
use vstd::prelude::*;
use crate::cells::{opt_row, Row};
use crate::filtering::{operand_fits, row_matches_relations, row_satisfies, FilterRelation};
use crate::types::ColumnMetadata;

verus! {

broadcast use vstd::seq_lib::group_seq_properties;

/// A partition as a scan reads it: its key, its token, its live rows in
/// clustering order and its static row.
#[derive(Debug)]
pub struct ScannedPartition {
    pub partition_key: Vec<u8>,
    pub token: i64,
    pub rows: Vec<Row>,
    pub static_row: Option<Row>,
}

/// The `WHERE` relations a scan filters by, with the table's columns and
/// the names of its key and static columns.
#[derive(Debug)]
pub struct ScanFilter {
    pub relations: Vec<FilterRelation>,
    pub cols: Vec<ColumnMetadata>,
    pub pk_names: Vec<String>,
    pub ck_names: Vec<String>,
    pub static_col_names: Vec<String>,
}

/// Whether every relation's right-hand side fits the kind of relation it is.
pub open spec fn filter_fits(f: ScanFilter) -> bool {
    forall|i: int| 0 <= i < f.relations@.len() ==> operand_fits(#[trigger] f.relations@[i])
}

/// Whether `row` of partition `p` satisfies every relation of `f`.
pub open spec fn row_selected(f: ScanFilter, p: ScannedPartition, row: Row) -> bool {
    forall|i: int| 0 <= i < f.relations@.len() ==> #[trigger] row_satisfies(f.relations@[i], f.cols@, f.pk_names@,
        f.ck_names@, f.static_col_names@, p.partition_key@, p.token, row, p.static_row)
}

/// The positions `(pi, ri)` of the first `n` rows of partition `p` (the
/// partition at `pi`) that `f` selects, in order.
pub open spec fn selected_in(f: ScanFilter, p: ScannedPartition, pi: int, n: int) -> Seq<(usize, usize)>
    decreases n,
{
    if n <= 0 {
        seq![]
    } else if row_selected(f, p, p.rows@[n - 1]) {
        selected_in(f, p, pi, n - 1).push((pi as usize, (n - 1) as usize))
    } else {
        selected_in(f, p, pi, n - 1)
    }
}

/// The positions of every row of `parts` that `f` selects, partition by
/// partition, each partition's rows in order.
pub open spec fn selected_rows(f: ScanFilter, parts: Seq<ScannedPartition>) -> Seq<(usize, usize)>
    decreases parts.len(),
{
    if parts.len() == 0 {
        seq![]
    } else {
        selected_rows(f, parts.drop_last()) + selected_in(f, parts.last(), parts.len() - 1, parts.last().rows@.len() as int)
    }
}

/// What a scan collects: every selected row, or, when it stops at `limit`,
/// the first of them up to the point where it holds `limit` rows (a limit of
/// 0 stops after the first row, which the `LIMIT` then cuts).
pub open spec fn scan_result(all: Seq<(usize, usize)>, stop_at: Option<usize>) -> Seq<(usize, usize)> {
    match stop_at {
        Some(limit) => {
            let n = if limit == 0 { 1 } else { limit as int };
            if all.len() <= n { all } else { all.take(n) }
        },
        None => all,
    }
}

proof fn lemma_selected_in_prefix(f: ScanFilter, p: ScannedPartition, pi: int, n: int, m: int)
    requires
        0 <= n <= m,
    ensures
        selected_in(f, p, pi, n).is_prefix_of(selected_in(f, p, pi, m)),
    decreases m,
{
    if n < m {
        lemma_selected_in_prefix(f, p, pi, n, m - 1);
    }
}

proof fn lemma_selected_rows_prefix(f: ScanFilter, parts: Seq<ScannedPartition>, i: int)
    requires
        0 <= i <= parts.len(),
    ensures
        selected_rows(f, parts.take(i)).is_prefix_of(selected_rows(f, parts)),
    decreases parts.len(),
{
    if i < parts.len() {
        lemma_selected_rows_prefix(f, parts.drop_last(), i);
        assert(parts.drop_last().take(i) =~= parts.take(i));
    } else {
        assert(parts.take(i) =~= parts);
    }
}

/// The rows of `parts` (in order) that satisfy the `WHERE` relations of
/// `filter`, as (partition, row) positions; with `stop_at`, the scan stops
/// once it holds that many rows (at least one), as a plain query's `LIMIT`
/// allows. The number of rows a `COUNT(*)` counts is the length of the scan
/// without a stop.
pub fn scan_selected_rows(parts: &[ScannedPartition], filter: &ScanFilter, stop_at: Option<usize>)
    -> (r: Vec<(usize, usize)>)
    requires
        filter_fits(*filter),
    ensures
        r@ == scan_result(selected_rows(*filter, parts@), stop_at),
{
    let ghost all = selected_rows(*filter, parts@);
    let mut out: Vec<(usize, usize)> = Vec::new();
    let mut pi: usize = 0;
    assert(parts@.take(0) =~= Seq::<ScannedPartition>::empty());
    while pi < parts.len()
        invariant
            pi <= parts@.len(),
            filter_fits(*filter),
            all == selected_rows(*filter, parts@),
            out@ == selected_rows(*filter, parts@.take(pi as int)),
            match stop_at {
                Some(limit) => out@.len() < (if limit == 0 { 1 } else { limit as int }),
                None => true,
            },
        decreases parts.len() - pi,
    {
        let p = &parts[pi];
        let ghost before = out@;
        let static_row: Option<&Row> = match &p.static_row {
            Some(s) => Some(s),
            None => None,
        };
        assert(opt_row(static_row) == p.static_row);
        let mut ri: usize = 0;
        while ri < p.rows.len()
            invariant
                pi < parts@.len(),
                *p == parts@[pi as int],
                opt_row(static_row) == p.static_row,
                ri <= p.rows@.len(),
                filter_fits(*filter),
                all == selected_rows(*filter, parts@),
                before == selected_rows(*filter, parts@.take(pi as int)),
                out@ == before + selected_in(*filter, *p, pi as int, ri as int),
                match stop_at {
                    Some(limit) => out@.len() < (if limit == 0 { 1 } else { limit as int }),
                    None => true,
                },
            decreases p.rows.len() - ri,
        {
            let keep = row_matches_relations(
                filter.relations.as_slice(),
                filter.cols.as_slice(),
                filter.pk_names.as_slice(),
                filter.ck_names.as_slice(),
                filter.static_col_names.as_slice(),
                p.partition_key.as_slice(),
                p.token,
                &p.rows[ri],
                static_row,
            );
            if keep {
                out.push((pi, ri));
            }
            ri = ri + 1;
            if keep {
                if let Some(limit) = stop_at {
                    if out.len() >= limit {
                        proof {
                            let n = if limit == 0 { 1 } else { limit as int };
                            let next = parts@.take(pi + 1);
                            assert(next.drop_last() =~= parts@.take(pi as int));
                            lemma_selected_in_prefix(*filter, *p, pi as int, ri as int, p.rows@.len() as int);
                            lemma_selected_rows_prefix(*filter, parts@, pi + 1);
                            assert(out@.is_prefix_of(selected_rows(*filter, next)));
                            assert(out@.len() == n);
                            assert(all.len() >= n);
                            assert(out@ =~= all.take(n));
                            if all.len() == n {
                                assert(all.take(n) =~= all);
                            }
                        }
                        return out;
                    }
                }
            }
        }
        proof {
            let next = parts@.take(pi + 1);
            assert(next.drop_last() =~= parts@.take(pi as int));
            assert(next.last() == *p);
        }
        pi = pi + 1;
    }
    assert(parts@.take(parts@.len() as int) =~= parts@);
    out
}

} // verus!

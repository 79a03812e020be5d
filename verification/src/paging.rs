//! Offset-based paging of a result set: a paging state holds the offset of
//! the next row as four big-endian bytes.
use vstd::prelude::*;

verus! {

/// A result row: one optional cell value per column.
pub type RowCells = Vec<Option<Vec<u8>>>;

/// The unsigned big-endian number of four bytes.
pub open spec fn be_u32(b0: u8, b1: u8, b2: u8, b3: u8) -> int {
    ((b0 as int * 256 + b1 as int) * 256 + b2 as int) * 256 + b3 as int
}

/// The four big-endian bytes of `n`, for `0 <= n < 2^32`.
pub open spec fn be_bytes_u32(n: int) -> Seq<u8> {
    seq![(n / 16777216) as u8, ((n / 65536) % 256) as u8, ((n / 256) % 256) as u8, (n % 256) as u8]
}

/// The first row a paging state asks for: the number in its first four bytes,
/// or 0 when there is no state or it is shorter than four bytes.
pub open spec fn start_offset(state: Option<Seq<u8>>) -> int {
    match state {
        Some(s) => if s.len() >= 4 { be_u32(s[0], s[1], s[2], s[3]) } else { 0 },
        None => 0,
    }
}

/// One page of `rows`: the rows from the state's offset, at most `page_size`
/// of them when it is positive, and the state for the next page when rows remain.
pub open spec fn page_of<R>(rows: Seq<R>, page_size: Option<i32>, state: Option<Seq<u8>>) -> (Seq<R>, Option<Seq<u8>>) {
    let start = start_offset(state);
    if start > 0 && start >= rows.len() {
        (Seq::empty(), None)
    } else {
        let rest = rows.subrange(start, rows.len() as int);
        match page_size {
            Some(n) => if n > 0 && rest.len() > n {
                (rest.subrange(0, n as int), Some(be_bytes_u32((start + n) % 0x1_0000_0000)))
            } else {
                (rest, None)
            },
            None => (rest, None),
        }
    }
}

/// The four big-endian bytes of `n`.
fn u32_be_bytes(n: u32) -> (r: Vec<u8>)
    ensures
        r@ == be_bytes_u32(n as int),
{
    let mut r: Vec<u8> = Vec::new();
    r.push((n / 16777216) as u8);
    r.push(((n / 65536) % 256) as u8);
    r.push(((n / 256) % 256) as u8);
    r.push((n % 256) as u8);
    r
}

/// Applies paging to `rows`: skips to the offset in `paging_state`, keeps at
/// most `page_size` rows, and returns the next paging state when more rows
/// remain, with the (always empty) list of warnings.
pub fn apply_paging(
    rows: Vec<RowCells>,
    page_size: Option<i32>,
    paging_state: &Option<Vec<u8>>,
) -> (r: (Vec<RowCells>, Option<Vec<u8>>, Vec<String>))
    ensures
        r.0.deep_view() == page_of(rows.deep_view(), page_size, paging_state.deep_view()).0,
        r.1.deep_view() == page_of(rows.deep_view(), page_size, paging_state.deep_view()).1,
        r.2@.len() == 0,
{
    let mut rows = rows;
    let ghost all = rows.deep_view();
    let warnings: Vec<String> = Vec::new();
    let start: u32 = match paging_state {
        Some(ps) => {
            if ps.len() >= 4 {
                let b0 = ps[0] as u32;
                let b1 = ps[1] as u32;
                let b2 = ps[2] as u32;
                let b3 = ps[3] as u32;
                ((b0 * 256 + b1) * 256 + b2) * 256 + b3
            } else {
                0
            }
        },
        None => 0,
    };
    assert(start as int == start_offset(paging_state.deep_view()));
    let start_offset_rows = start as usize;
    if start_offset_rows > 0 {
        if start_offset_rows >= rows.len() {
            return (Vec::new(), None, warnings);
        }
        rows = rows.split_off(start_offset_rows);
    }
    assert(rows.deep_view() =~= all.subrange(start as int, all.len() as int));
    let next = match page_size {
        Some(n) => {
            if n > 0 && rows.len() > n as usize {
                rows.truncate(n as usize);
                let next_offset: u64 = (start as u64 + n as u64) % 0x1_0000_0000;
                Some(u32_be_bytes(next_offset as u32))
            } else {
                None
            }
        },
        None => None,
    };
    (rows, next, warnings)
}

/// The first `n` rows, or all of them when there are no more than `n`.
pub open spec fn limited<R>(rows: Seq<R>, n: usize) -> Seq<R> {
    if rows.len() > n { rows.take(n as int) } else { rows }
}

/// The end of a `SELECT`: keeps the first `row_limit` rows (its `LIMIT`),
/// then returns the page the paging state asks for, as `apply_paging` does.
pub fn limit_and_page(
    rows: Vec<RowCells>,
    row_limit: usize,
    page_size: Option<i32>,
    paging_state: &Option<Vec<u8>>,
) -> (r: (Vec<RowCells>, Option<Vec<u8>>, Vec<String>))
    ensures
        r.0.deep_view() == page_of(limited(rows.deep_view(), row_limit), page_size, paging_state.deep_view()).0,
        r.1.deep_view() == page_of(limited(rows.deep_view(), row_limit), page_size, paging_state.deep_view()).1,
        r.2@.len() == 0,
{
    let ghost all = rows.deep_view();
    let mut rows = rows;
    if rows.len() > row_limit {
        rows.truncate(row_limit);
    }
    assert(rows.deep_view() =~= limited(all, row_limit));
    apply_paging(rows, page_size, paging_state)
}

/// Reading back a written offset gives the offset.
pub proof fn lemma_offset_round_trip(n: int)
    requires
        0 <= n < 0x1_0000_0000,
    ensures
        start_offset(Some(be_bytes_u32(n))) == n,
{
    let b = be_bytes_u32(n);
    assert(b.len() == 4);
    let q3 = n / 16777216;
    let q2 = (n / 65536) % 256;
    let q1 = (n / 256) % 256;
    let q0 = n % 256;
    assert(0 <= q3 < 256) by (nonlinear_arith) requires q3 == n / 16777216, 0 <= n < 0x1_0000_0000;
    assert(0 <= q2 < 256) by (nonlinear_arith) requires q2 == (n / 65536) % 256, 0 <= n;
    assert(0 <= q1 < 256) by (nonlinear_arith) requires q1 == (n / 256) % 256, 0 <= n;
    assert(0 <= q0 < 256) by (nonlinear_arith) requires q0 == n % 256, 0 <= n;
    assert(((q3 * 256 + q2) * 256 + q1) * 256 + q0 == n) by (nonlinear_arith)
        requires
            q3 == n / 16777216,
            q2 == (n / 65536) % 256,
            q1 == (n / 256) % 256,
            q0 == n % 256,
            0 <= n,
    ;
}

/// Paging resumes where the last page stopped: when a page of size `n`
/// returns a next state, that state asks for the row right after the page,
/// and the page followed by the rows from there is everything from the
/// page's own start.
pub proof fn lemma_paging_resumes<R>(rows: Seq<R>, n: i32, state: Option<Seq<u8>>)
    requires
        n > 0,
        start_offset(state) + n < 0x1_0000_0000,
        page_of(rows, Some(n), state).1 is Some,
    ensures
        start_offset(page_of(rows, Some(n), state).1) == start_offset(state) + n,
        page_of(rows, Some(n), state).0 + rows.subrange(start_offset(state) + n, rows.len() as int)
            == rows.subrange(start_offset(state), rows.len() as int),
{
    let start = start_offset(state);
    assert(0 <= start) by {
        match state {
            Some(s) => if s.len() >= 4 {
                assert(be_u32(s[0], s[1], s[2], s[3]) >= 0) by (nonlinear_arith)
                    requires s[0] >= 0, s[1] >= 0, s[2] >= 0, s[3] >= 0;
            },
            None => {},
        }
    }
    lemma_offset_round_trip(start + n);
    assert(page_of(rows, Some(n), state).0 + rows.subrange(start + n, rows.len() as int)
        =~= rows.subrange(start, rows.len() as int));
}

/// Without a page size and without a state, the whole result is one page.
pub proof fn lemma_unpaged_is_everything<R>(rows: Seq<R>)
    ensures
        page_of(rows, None, None) == (rows, Option::<Seq<u8>>::None),
{
    assert(rows.subrange(0, rows.len() as int) =~= rows);
}

/// The paging state a client holds before asking for page `k` of `rows`,
/// starting without a state and passing back each returned state.
pub open spec fn state_before_page<R>(rows: Seq<R>, n: i32, k: nat) -> Option<Seq<u8>>
    decreases k,
{
    if k == 0 {
        None
    } else {
        page_of(rows, Some(n), state_before_page(rows, n, (k - 1) as nat)).1
    }
}

/// Pages `0..k` of `rows`, one after the other.
pub open spec fn pages_joined<R>(rows: Seq<R>, n: i32, k: nat) -> Seq<R>
    decreases k,
{
    if k == 0 {
        Seq::empty()
    } else {
        pages_joined(rows, n, (k - 1) as nat) + page_of(rows, Some(n), state_before_page(rows, n, (k - 1) as nat)).0
    }
}

pub open spec fn min_int(a: int, b: int) -> int {
    if a < b { a } else { b }
}

/// Paging through a whole result: for a positive page size `n` and fewer
/// than `2^32` rows, page `k` (reached by passing back each state, while
/// rows remain before it) holds the rows `k*n` up to `k*n + n`; a next state
/// comes back exactly when rows remain after it; and the pages up to it
/// joined are the rows up to its end. So a client that stops at the first
/// page without a next state has read every row once, in order, every page
/// but the last holding `n` rows.
#[verifier::rlimit(40)]
pub proof fn lemma_paging_reads_every_row_once<R>(rows: Seq<R>, n: i32, k: nat)
    requires
        n > 0,
        rows.len() < 0x1_0000_0000,
        k == 0 || k * n < rows.len(),
    ensures
        start_offset(state_before_page(rows, n, k)) == k * n,
        page_of(rows, Some(n), state_before_page(rows, n, k)).0
            == rows.subrange(k * n, min_int(k * n + n, rows.len() as int)),
        (page_of(rows, Some(n), state_before_page(rows, n, k)).1 is Some) == (k * n + n < rows.len()),
        pages_joined(rows, n, k + 1) == rows.subrange(0, min_int(k * n + n, rows.len() as int)),
    decreases k,
{
    let len = rows.len() as int;
    if k == 0 {
        assert(state_before_page(rows, n, 0) == None::<Seq<u8>>);
        assert(pages_joined(rows, n, 0) == Seq::<R>::empty());
        assert(rows.subrange(0, len) =~= rows);
        assert(pages_joined(rows, n, 1) =~= page_of(rows, Some(n), None).0);
        if n < len {
            assert(page_of(rows, Some(n), None).0 =~= rows.subrange(0, n as int));
        } else {
            assert(rows.subrange(0, min_int(n as int, len)) =~= rows);
        }
    } else {
        let j = (k - 1) as nat;
        assert(j * n + n == k * n) by (nonlinear_arith)
            requires
                j == k - 1,
        ;
        assert(j * n < k * n) by (nonlinear_arith)
            requires
                j == k - 1,
                n > 0,
        ;
        assert(j == 0 || j * n < len);
        lemma_paging_reads_every_row_once(rows, n, j);
        let prev = state_before_page(rows, n, j);
        lemma_paging_resumes(rows, n, prev);
        let st = state_before_page(rows, n, k);
        assert(st == page_of(rows, Some(n), prev).1);
        assert(start_offset(st) == k * n);
        assert(k * n > 0) by (nonlinear_arith)
            requires
                k > 0,
                n > 0,
        ;
        let rest = rows.subrange(k * n, len);
        if rest.len() > n {
            assert(rest.subrange(0, n as int) =~= rows.subrange(k * n, k * n + n));
        } else {
            assert(rest =~= rows.subrange(k * n, min_int(k * n + n, len)));
        }
        assert(pages_joined(rows, n, k + 1) == pages_joined(rows, n, k) + page_of(rows, Some(n), st).0);
        assert(pages_joined(rows, n, k + 1) =~= rows.subrange(0, min_int(k * n + n, len)));
    }
}

} // verus!

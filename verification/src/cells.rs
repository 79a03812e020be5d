//! Reading column values, write times and TTLs out of the cells of a row.
use vstd::prelude::*;
use crate::aggregates::lowered;
use crate::chars::lower;
use crate::numbers::{be_bytes, be_bytes_wrapping};
use crate::relations::bytes_copy;
use crate::text::str_eq;

verus! {

broadcast use vstd::seq_lib::group_seq_properties;

/// One cell of a stored row; `live` tells whether it is live at the time
/// of the read (neither deleted nor expired).
#[derive(Debug)]
pub struct Cell {
    pub column: String,
    pub value: Option<Vec<u8>>,
    pub timestamp: i64,
    pub ttl: i32,
    pub live: bool,
}

/// A stored row: its clustering key bytes and its cells.
#[derive(Debug)]
pub struct Row {
    pub clustering_key: Vec<u8>,
    pub cells: Vec<Cell>,
}

/// The row an optional reference points to.
pub open spec fn opt_row(r: Option<&Row>) -> Option<Row> {
    match r {
        Some(x) => Some(*x),
        None => None,
    }
}

/// Whether `names` holds `name`.
pub open spec fn names_contain(names: Seq<String>, name: Seq<char>) -> bool {
    exists|i: int| 0 <= i < names.len() && (#[trigger] names[i])@ == name
}

/// Whether a cell is a live cell of `column`.
pub open spec fn live_cell_of(c: Cell, column: Seq<char>) -> bool {
    c.column@ == column && c.live
}

/// The position of the first live cell of `column`.
pub open spec fn first_live(cells: Seq<Cell>, column: Seq<char>) -> Option<int>
    decreases cells.len(),
{
    if cells.len() == 0 {
        None
    } else {
        match first_live(cells.drop_last(), column) {
            Some(i) => Some(i),
            None => if live_cell_of(cells.last(), column) { Some(cells.len() - 1) } else { None },
        }
    }
}

/// The position of the last live cell of `column`.
pub open spec fn last_live(cells: Seq<Cell>, column: Seq<char>) -> Option<int>
    decreases cells.len(),
{
    if cells.len() == 0 {
        None
    } else if live_cell_of(cells.last(), column) {
        Some(cells.len() - 1)
    } else {
        last_live(cells.drop_last(), column)
    }
}

fn contains_name(names: &[String], name: &str) -> (r: bool)
    ensures
        r == names_contain(names@, name@),
{
    let mut i: usize = 0;
    while i < names.len()
        invariant
            i <= names@.len(),
            forall|j: int| 0 <= j < i ==> (#[trigger] names@[j])@ != name@,
        decreases names.len() - i,
    {
        if str_eq(names[i].as_str(), name) {
            return true;
        }
        i = i + 1;
    }
    false
}

fn first_live_index(cells: &[Cell], column: &str) -> (r: Option<usize>)
    ensures
        match r {
            Some(i) => i < cells@.len() && first_live(cells@, column@) == Some(i as int),
            None => first_live(cells@, column@) is None,
        },
{
    let mut i: usize = 0;
    while i < cells.len()
        invariant
            i <= cells@.len(),
            first_live(cells@.subrange(0, i as int), column@) is None,
        decreases cells.len() - i,
    {
        assert(cells@.subrange(0, i + 1).drop_last() =~= cells@.subrange(0, i as int));
        if cells[i].live && str_eq(cells[i].column.as_str(), column) {
            proof { lemma_first_live_prefix(cells@, column@, i as int + 1); }
            return Some(i);
        }
        i = i + 1;
    }
    assert(cells@.subrange(0, cells@.len() as int) =~= cells@);
    None
}

proof fn lemma_first_live_prefix(cells: Seq<Cell>, column: Seq<char>, n: int)
    requires
        0 <= n <= cells.len(),
        first_live(cells.subrange(0, n), column) is Some,
    ensures
        first_live(cells, column) == first_live(cells.subrange(0, n), column),
    decreases cells.len() - n,
{
    if n < cells.len() {
        assert(cells.subrange(0, n + 1).drop_last() =~= cells.subrange(0, n));
        lemma_first_live_prefix(cells, column, n + 1);
    } else {
        assert(cells.subrange(0, n) =~= cells);
    }
}

/// A position found by `first_live` or `last_live` names a live cell of the column.
proof fn lemma_live_found(cells: Seq<Cell>, column: Seq<char>)
    ensures
        first_live(cells, column) matches Some(i) ==> 0 <= i < cells.len() && live_cell_of(cells[i], column),
        last_live(cells, column) matches Some(i) ==> 0 <= i < cells.len() && live_cell_of(cells[i], column),
    decreases cells.len(),
{
    if cells.len() > 0 {
        lemma_live_found(cells.drop_last(), column);
    }
}

/// The cells a non-key column is read from: the static row's for a static
/// column (none when there is no static row), else the row's own.
pub open spec fn column_cells(column: Seq<char>, static_col_names: Seq<String>, row: Row, static_row: Option<Row>) -> Seq<Cell> {
    if names_contain(static_col_names, column) {
        match static_row {
            Some(s) => s.cells@,
            None => seq![],
        }
    } else {
        row.cells@
    }
}

/// Whether a column is part of the primary key.
pub open spec fn key_column(column: Seq<char>, pk_names: Seq<String>, ck_names: Seq<String>) -> bool {
    names_contain(pk_names, column) || names_contain(ck_names, column)
}

/// The live cell a non-key column reads, if any: the first live one.
pub fn cell_for_column<'a>(
    column: &str,
    pk_names: &[String],
    ck_names: &[String],
    static_col_names: &[String],
    row: &'a Row,
    static_row: Option<&'a Row>,
) -> (r: Option<&'a Cell>)
    ensures
        ({
            let cells = column_cells(column@, static_col_names@, *row, opt_row(static_row));
            if key_column(column@, pk_names@, ck_names@) {
                r is None
            } else {
                match first_live(cells, column@) {
                    Some(i) => r matches Some(c) && *c == cells[i],
                    None => r is None,
                }
            }
        }),
{
    if contains_name(pk_names, column) || contains_name(ck_names, column) {
        return None;
    }
    let cells: &[Cell] = if contains_name(static_col_names, column) {
        match static_row {
            Some(s) => s.cells.as_slice(),
            None => &[],
        }
    } else {
        row.cells.as_slice()
    };
    match first_live_index(cells, column) {
        Some(i) => Some(&cells[i]),
        None => None,
    }
}

/// What `WRITETIME(col)`, `MAXWRITETIME(col)` or `TTL(col)` gives for a cell.
pub open spec fn writetime_or_ttl(kind: Seq<char>, c: Cell) -> Option<Seq<u8>> {
    let k = lower(kind);
    if k == "writetime"@ || k == "maxwritetime"@ {
        Some(be_bytes(c.timestamp as int, 8))
    } else if k == "ttl"@ && c.ttl > 0 {
        Some(be_bytes(c.ttl as int, 4))
    } else {
        None
    }
}

/// The value of a `WRITETIME`/`MAXWRITETIME`/`TTL` selector on a column:
/// the cell's timestamp as a `bigint`, or its remaining TTL as an `int`
/// where it has one; nothing for a key column or a column without a live cell.
pub fn writetime_or_ttl_value(
    kind: &str,
    column: &str,
    pk_names: &[String],
    ck_names: &[String],
    static_col_names: &[String],
    row: &Row,
    static_row: Option<&Row>,
) -> (r: Option<Vec<u8>>)
    ensures
        ({
            let cells = column_cells(column@, static_col_names@, *row, opt_row(static_row));
            if key_column(column@, pk_names@, ck_names@) {
                r is None
            } else {
                match first_live(cells, column@) {
                    Some(i) => match writetime_or_ttl(kind@, cells[i]) {
                        Some(b) => r matches Some(v) && v@ == b,
                        None => r is None,
                    },
                    None => r is None,
                }
            }
        }),
{
    let cell = match cell_for_column(column, pk_names, ck_names, static_col_names, row, static_row) {
        Some(c) => c,
        None => return None,
    };
    let k = lowered(kind);
    if str_eq(k.as_str(), "writetime") || str_eq(k.as_str(), "maxwritetime") {
        Some(be_bytes_wrapping(cell.timestamp as i128, 8))
    } else if str_eq(k.as_str(), "ttl") && cell.ttl > 0 {
        Some(be_bytes_wrapping(cell.ttl as i128, 4))
    } else {
        None
    }
}

/// The value of the last live cell of `column` in a row, if it has one.
pub fn current_live_cell_value<'a>(row: &'a Row, column: &str) -> (r: Option<&'a [u8]>)
    ensures
        match last_live(row.cells@, column@) {
            Some(i) => match row.cells@[i].value {
                Some(v) => r matches Some(b) && b@ == v@,
                None => r is None,
            },
            None => r is None,
        },
{
    let cells = row.cells.as_slice();
    let mut i: usize = cells.len();
    assert(cells@.subrange(0, i as int) =~= cells@);
    while i > 0
        invariant
            i <= cells@.len(),
            cells@ == row.cells@,
            last_live(cells@, column@) == last_live(cells@.subrange(0, i as int), column@),
        decreases i,
    {
        assert(cells@.subrange(0, i as int).drop_last() =~= cells@.subrange(0, i - 1));
        if cells[i - 1].live && str_eq(cells[i - 1].column.as_str(), column) {
            return match &cells[i - 1].value {
                Some(v) => Some(v.as_slice()),
                None => None,
            };
        }
        i = i - 1;
    }
    None
}

/// The value a row holds for a column: the partition key for a partition
/// key column, the clustering key for the only clustering column, else the
/// first live cell's value (for a static column, the static row's, then the row's).
pub open spec fn raw_value(pk_names: Seq<String>, ck_names: Seq<String>, static_col_names: Seq<String>,
    column: Seq<char>, partition_key: Seq<u8>, row: Row, static_row: Option<Row>) -> Option<Seq<u8>> {
    let own = match first_live(row.cells@, column) {
        Some(i) => match row.cells@[i].value { Some(v) => Some(v@), None => None },
        None => None,
    };
    if names_contain(pk_names, column) {
        Some(partition_key)
    } else if ck_names.len() == 1 && ck_names[0]@ == column {
        Some(row.clustering_key@)
    } else if names_contain(static_col_names, column) {
        let from_static = match static_row {
            Some(s) => match first_live(s.cells@, column) {
                Some(i) => match s.cells@[i].value { Some(v) => Some(v@), None => None },
                None => None,
            },
            None => None,
        };
        match from_static {
            Some(v) => Some(v),
            None => own,
        }
    } else {
        own
    }
}

fn first_live_value(cells: &[Cell], column: &str) -> (r: Option<Vec<u8>>)
    ensures
        match first_live(cells@, column@) {
            Some(i) => match cells@[i].value {
                Some(v) => r matches Some(b) && b@ == v@,
                None => r is None,
            },
            None => r is None,
        },
{
    match first_live_index(cells, column) {
        Some(i) => match &cells[i].value {
            Some(v) => Some(v.clone()),
            None => None,
        },
        None => None,
    }
}

/// The value a row holds for a column, as relations compare it.
pub fn raw_column_value(
    pk_names: &[String],
    ck_names: &[String],
    static_col_names: &[String],
    column_name: &str,
    partition_key: &[u8],
    row: &Row,
    static_row: Option<&Row>,
) -> (r: Option<Vec<u8>>)
    ensures
        match raw_value(pk_names@, ck_names@, static_col_names@, column_name@, partition_key@, *row,
            opt_row(static_row)) {
            Some(v) => r matches Some(b) && b@ == v,
            None => r is None,
        },
{
    if contains_name(pk_names, column_name) {
        Some(bytes_copy(partition_key))
    } else if ck_names.len() == 1 && str_eq(ck_names[0].as_str(), column_name) {
        Some(row.clustering_key.clone())
    } else if contains_name(static_col_names, column_name) {
        let from_static = match static_row {
            Some(s) => first_live_value(s.cells.as_slice(), column_name),
            None => None,
        };
        match from_static {
            Some(v) => Some(v),
            None => first_live_value(row.cells.as_slice(), column_name),
        }
    } else {
        first_live_value(row.cells.as_slice(), column_name)
    }
}

} // verus!

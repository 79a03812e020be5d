//! Write-path guardrails: limits on the size of a mutation, its tombstones,
//! its collection updates and the number of columns it touches.
use vstd::prelude::*;
use crate::guardrails::{GuardrailResult, GuardrailVerdict};
use crate::text::{push_str, push_decimal_u64, str_eq, nat_decimal};

verus! {

broadcast use vstd::seq_lib::group_seq_properties;

/// An update of a collection cell.
#[derive(Debug, Clone)]
pub enum CollectionOp {
    Append(Vec<Vec<u8>>),
    Remove(Vec<Vec<u8>>),
    MapPut(Vec<(Vec<u8>, Vec<u8>)>),
}

/// A write of one cell.
#[derive(Debug, Clone)]
pub struct CellMutation {
    pub column: String,
    pub value: Option<Vec<u8>>,
    pub timestamp: i64,
    pub ttl: i32,
    pub is_tombstone: bool,
    pub collection_op: Option<CollectionOp>,
}

/// A write of one row.
#[derive(Debug, Clone)]
pub struct MutationRow {
    pub clustering_key: Vec<u8>,
    pub cells: Vec<CellMutation>,
    pub is_tombstone: bool,
    pub has_range_tombstone: bool,
}

/// A write of one partition, as the coordinator sees it.
#[derive(Debug, Clone)]
pub struct CoordinatedMutation {
    pub keyspace: String,
    pub table: String,
    pub partition_key: Vec<u8>,
    pub rows: Vec<MutationRow>,
    pub static_cells: Vec<CellMutation>,
    pub has_partition_tombstone: bool,
    pub timestamp: i64,
}

impl CoordinatedMutation {
    /// A mutation of regular rows only, with no partition tombstone.
    pub fn simple(keyspace: String, table: String, partition_key: Vec<u8>, rows: Vec<MutationRow>, timestamp: i64) -> (m: CoordinatedMutation)
        ensures
            m.keyspace == keyspace,
            m.table == table,
            m.partition_key == partition_key,
            m.rows == rows,
            m.static_cells@.len() == 0,
            !m.has_partition_tombstone,
            m.timestamp == timestamp,
    {
        CoordinatedMutation {
            keyspace,
            table,
            partition_key,
            rows,
            static_cells: Vec::new(),
            has_partition_tombstone: false,
            timestamp,
        }
    }
}

/// Write-path limits.
#[derive(Debug, Clone, Copy)]
pub struct WriteGuardrails {
    pub max_mutation_size: usize,
    pub partition_size_warn: usize,
    pub tombstone_warn_threshold: usize,
    pub collection_size_warn: usize,
    pub columns_per_query_warn: usize,
}

impl Default for WriteGuardrails {
    /// 16 MiB maximum mutation, 10 MiB partition warning, and warnings above
    /// 1000 tombstones, 1000 collection elements and 100 columns.
    fn default() -> (g: WriteGuardrails)
        ensures
            g.max_mutation_size == 16 * 1024 * 1024,
            g.partition_size_warn == 10 * 1024 * 1024,
            g.tombstone_warn_threshold == 1000,
            g.collection_size_warn == 1000,
            g.columns_per_query_warn == 100,
    {
        WriteGuardrails {
            max_mutation_size: 16 * 1024 * 1024,
            partition_size_warn: 10 * 1024 * 1024,
            tombstone_warn_threshold: 1000,
            collection_size_warn: 1000,
            columns_per_query_warn: 100,
        }
    }
}

/// Number of tombstone cells among `cells`.
pub open spec fn cell_tombstones(cells: Seq<CellMutation>) -> nat
    decreases cells.len(),
{
    if cells.len() == 0 {
        0
    } else {
        cell_tombstones(cells.drop_last()) + (if cells.last().is_tombstone { 1nat } else { 0nat })
    }
}

/// Tombstones of one row: a row tombstone, a range tombstone and its tombstone cells.
pub open spec fn row_tombstones(row: MutationRow) -> nat {
    (if row.is_tombstone { 1nat } else { 0nat }) + (if row.has_range_tombstone { 1nat } else { 0nat })
        + cell_tombstones(row.cells@)
}

/// Tombstones of all `rows`.
pub open spec fn rows_tombstones(rows: Seq<MutationRow>) -> nat
    decreases rows.len(),
{
    if rows.len() == 0 {
        0
    } else {
        rows_tombstones(rows.drop_last()) + row_tombstones(rows.last())
    }
}

/// Tombstones of a mutation: partition, rows and static cells.
pub open spec fn tombstone_count(m: CoordinatedMutation) -> nat {
    (if m.has_partition_tombstone { 1nat } else { 0nat }) + rows_tombstones(m.rows@)
        + cell_tombstones(m.static_cells@)
}

/// Number of elements a collection update carries.
pub open spec fn op_size(op: CollectionOp) -> nat {
    match op {
        CollectionOp::Append(e) => e@.len(),
        CollectionOp::Remove(e) => e@.len(),
        CollectionOp::MapPut(e) => e@.len(),
    }
}

/// Largest collection update among `cells`, 0 if none.
pub open spec fn cells_max_collection(cells: Seq<CellMutation>) -> nat
    decreases cells.len(),
{
    if cells.len() == 0 {
        0
    } else {
        let rest = cells_max_collection(cells.drop_last());
        match cells.last().collection_op {
            Some(op) => if op_size(op) > rest { op_size(op) } else { rest },
            None => rest,
        }
    }
}

/// Largest collection update among the cells of `rows`.
pub open spec fn rows_max_collection(rows: Seq<MutationRow>) -> nat
    decreases rows.len(),
{
    if rows.len() == 0 {
        0
    } else {
        let rest = rows_max_collection(rows.drop_last());
        let here = cells_max_collection(rows.last().cells@);
        if here > rest { here } else { rest }
    }
}

/// Largest collection update of a mutation, 0 if none.
pub open spec fn max_collection(m: CoordinatedMutation) -> nat {
    let r = rows_max_collection(m.rows@);
    let s = cells_max_collection(m.static_cells@);
    if r > s { r } else { s }
}

/// Column names of `cells`, in order.
pub open spec fn cell_names(cells: Seq<CellMutation>) -> Seq<Seq<char>>
    decreases cells.len(),
{
    if cells.len() == 0 {
        Seq::empty()
    } else {
        cell_names(cells.drop_last()).push(cells.last().column@)
    }
}

/// Column names of the cells of `rows`, in order.
pub open spec fn rows_cell_names(rows: Seq<MutationRow>) -> Seq<Seq<char>>
    decreases rows.len(),
{
    if rows.len() == 0 {
        Seq::empty()
    } else {
        rows_cell_names(rows.drop_last()) + cell_names(rows.last().cells@)
    }
}

/// Number of distinct columns a mutation touches.
pub open spec fn column_count(m: CoordinatedMutation) -> nat {
    (rows_cell_names(m.rows@) + cell_names(m.static_cells@)).to_set().len()
}

fn count_cell_tombstones(cells: &Vec<CellMutation>, start: usize) -> (n: usize)
    requires
        start + cell_tombstones(cells@) <= usize::MAX,
    ensures
        n == start + cell_tombstones(cells@),
{
    let mut count = start;
    let mut i: usize = 0;
    while i < cells.len()
        invariant
            i <= cells.len(),
            start + cell_tombstones(cells@) <= usize::MAX,
            count == start + cell_tombstones(cells@.take(i as int)),
        decreases cells.len() - i,
    {
        proof {
            assert(cells@.take(i + 1).drop_last() =~= cells@.take(i as int));
            lemma_cell_tombstones_prefix(cells@, i as int + 1);
        }
        if cells[i].is_tombstone {
            count = count + 1;
        }
        i = i + 1;
    }
    assert(cells@.take(i as int) =~= cells@);
    count
}

proof fn lemma_cell_tombstones_prefix(cells: Seq<CellMutation>, k: int)
    requires
        0 <= k <= cells.len(),
    ensures
        cell_tombstones(cells.take(k)) <= cell_tombstones(cells),
    decreases cells.len(),
{
    if k < cells.len() {
        assert(cells.drop_last().take(k) =~= cells.take(k));
        lemma_cell_tombstones_prefix(cells.drop_last(), k);
    } else {
        assert(cells.take(k) =~= cells);
    }
}

proof fn lemma_rows_tombstones_prefix(rows: Seq<MutationRow>, k: int)
    requires
        0 <= k <= rows.len(),
    ensures
        rows_tombstones(rows.take(k)) <= rows_tombstones(rows),
    decreases rows.len(),
{
    if k < rows.len() {
        assert(rows.drop_last().take(k) =~= rows.take(k));
        lemma_rows_tombstones_prefix(rows.drop_last(), k);
    } else {
        assert(rows.take(k) =~= rows);
    }
}

/// Number of tombstones a mutation carries.
pub fn count_tombstones(mutation: &CoordinatedMutation) -> (n: usize)
    requires
        tombstone_count(*mutation) <= usize::MAX,
    ensures
        n == tombstone_count(*mutation),
{
    let mut count: usize = 0;
    if mutation.has_partition_tombstone {
        count = 1;
    }
    let ghost base = count as int;
    let mut i: usize = 0;
    while i < mutation.rows.len()
        invariant
            i <= mutation.rows.len(),
            tombstone_count(*mutation) <= usize::MAX,
            base == (if mutation.has_partition_tombstone { 1int } else { 0int }),
            count == base + rows_tombstones(mutation.rows@.take(i as int)),
        decreases mutation.rows.len() - i,
    {
        let row = &mutation.rows[i];
        proof {
            assert(mutation.rows@.take(i + 1).drop_last() =~= mutation.rows@.take(i as int));
            lemma_rows_tombstones_prefix(mutation.rows@, i as int + 1);
        }
        if row.is_tombstone {
            count = count + 1;
        }
        if row.has_range_tombstone {
            count = count + 1;
        }
        count = count_cell_tombstones(&row.cells, count);
        i = i + 1;
    }
    assert(mutation.rows@.take(i as int) =~= mutation.rows@);
    count_cell_tombstones(&mutation.static_cells, count)
}

fn op_len(op: &CollectionOp) -> (n: usize)
    ensures
        n == op_size(*op),
{
    match op {
        CollectionOp::Append(e) => e.len(),
        CollectionOp::Remove(e) => e.len(),
        CollectionOp::MapPut(e) => e.len(),
    }
}

fn cells_max(cells: &Vec<CellMutation>, start: usize) -> (n: usize)
    ensures
        n == (if start > cells_max_collection(cells@) { start as nat } else { cells_max_collection(cells@) }),
{
    let mut max_size = start;
    let mut i: usize = 0;
    while i < cells.len()
        invariant
            i <= cells.len(),
            max_size == (if start > cells_max_collection(cells@.take(i as int)) { start as nat } else { cells_max_collection(cells@.take(i as int)) }),
        decreases cells.len() - i,
    {
        proof {
            assert(cells@.take(i + 1).drop_last() =~= cells@.take(i as int));
        }
        match &cells[i].collection_op {
            Some(op) => {
                let sz = op_len(op);
                if sz > max_size {
                    max_size = sz;
                }
            },
            None => {},
        }
        i = i + 1;
    }
    assert(cells@.take(i as int) =~= cells@);
    max_size
}

/// Size of the largest collection update of a mutation.
pub fn max_collection_size(mutation: &CoordinatedMutation) -> (n: usize)
    ensures
        n == max_collection(*mutation),
{
    let mut max_size: usize = 0;
    let mut i: usize = 0;
    while i < mutation.rows.len()
        invariant
            i <= mutation.rows.len(),
            max_size == rows_max_collection(mutation.rows@.take(i as int)),
        decreases mutation.rows.len() - i,
    {
        proof {
            assert(mutation.rows@.take(i + 1).drop_last() =~= mutation.rows@.take(i as int));
        }
        max_size = cells_max(&mutation.rows[i].cells, max_size);
        i = i + 1;
    }
    assert(mutation.rows@.take(i as int) =~= mutation.rows@);
    cells_max(&mutation.static_cells, max_size)
}

/// The views of a vector of strings.
pub open spec fn string_views(v: Seq<String>) -> Seq<Seq<char>> {
    v.map_values(|s: String| s@)
}

fn push_cell_names(out: &mut Vec<String>, cells: &Vec<CellMutation>)
    ensures
        string_views(final(out)@) == string_views(old(out)@) + cell_names(cells@),
{
    let mut i: usize = 0;
    let ghost start = string_views(out@);
    while i < cells.len()
        invariant
            i <= cells.len(),
            string_views(out@) == start + cell_names(cells@.take(i as int)),
        decreases cells.len() - i,
    {
        proof {
            assert(cells@.take(i + 1).drop_last() =~= cells@.take(i as int));
        }
        let ghost before = out@;
        out.push(cells[i].column.clone());
        proof {
            assert(string_views(out@) =~= string_views(before).push(cells@[i as int].column@));
        }
        i = i + 1;
        assert(string_views(out@) =~= start + cell_names(cells@.take(i as int)));
    }
    assert(cells@.take(i as int) =~= cells@);
}

fn column_names(mutation: &CoordinatedMutation) -> (v: Vec<String>)
    ensures
        string_views(v@) == rows_cell_names(mutation.rows@) + cell_names(mutation.static_cells@),
{
    let mut out: Vec<String> = Vec::new();
    let mut i: usize = 0;
    assert(string_views(out@) =~= rows_cell_names(mutation.rows@.take(0)));
    while i < mutation.rows.len()
        invariant
            i <= mutation.rows.len(),
            string_views(out@) == rows_cell_names(mutation.rows@.take(i as int)),
        decreases mutation.rows.len() - i,
    {
        proof {
            assert(mutation.rows@.take(i + 1).drop_last() =~= mutation.rows@.take(i as int));
        }
        push_cell_names(&mut out, &mutation.rows[i].cells);
        i = i + 1;
    }
    assert(mutation.rows@.take(i as int) =~= mutation.rows@);
    push_cell_names(&mut out, &mutation.static_cells);
    out
}

fn contains_name(seen: &Vec<String>, name: &String) -> (r: bool)
    ensures
        r == string_views(seen@).contains(name@),
{
    let mut i: usize = 0;
    while i < seen.len()
        invariant
            i <= seen.len(),
            forall|j: int| 0 <= j < i ==> seen@[j]@ != name@,
        decreases seen.len() - i,
    {
        if str_eq(seen[i].as_str(), name.as_str()) {
            assert(string_views(seen@)[i as int] == name@);
            return true;
        }
        i = i + 1;
    }
    proof {
        if string_views(seen@).contains(name@) {
            let k = choose|k: int| 0 <= k < string_views(seen@).len() && string_views(seen@)[k] == name@;
            assert(seen@[k]@ == name@);
        }
    }
    false
}

/// Number of distinct strings among `names`.
fn distinct_count(names: &Vec<String>) -> (n: usize)
    ensures
        n == string_views(names@).to_set().len(),
{
    let mut seen: Vec<String> = Vec::new();
    let mut i: usize = 0;
    assert(string_views(seen@) =~= Seq::<Seq<char>>::empty());
    assert(string_views(names@).take(0) =~= Seq::<Seq<char>>::empty());
    while i < names.len()
        invariant
            i <= names.len(),
            seen.len() <= i,
            string_views(seen@).no_duplicates(),
            string_views(seen@).to_set() == string_views(names@).take(i as int).to_set(),
        decreases names.len() - i,
    {
        let ghost prefix = string_views(names@).take(i as int);
        assert(string_views(names@).take(i + 1) =~= prefix.push(names@[i as int]@));
        if !contains_name(&seen, &names[i]) {
            let ghost before = string_views(seen@);
            seen.push(names[i].clone());
            assert(string_views(seen@) =~= before.push(names@[i as int]@));
            assert(before.push(names@[i as int]@).to_set() =~= before.to_set().insert(names@[i as int]@));
            assert(prefix.push(names@[i as int]@).to_set() =~= prefix.to_set().insert(names@[i as int]@));
        } else {
            assert(string_views(seen@).to_set().contains(names@[i as int]@));
            assert(prefix.push(names@[i as int]@).to_set() =~= prefix.to_set().insert(names@[i as int]@));
        }
        i = i + 1;
    }
    assert(string_views(names@).take(i as int) =~= string_views(names@));
    proof {
        string_views(seen@).unique_seq_to_set();
    }
    seen.len()
}

/// Number of distinct columns a mutation touches.
pub fn count_columns(mutation: &CoordinatedMutation) -> (n: usize)
    ensures
        n == column_count(*mutation),
{
    let names = column_names(mutation);
    distinct_count(&names)
}

/// The verdict of the write-path guardrails for a mutation whose estimated
/// size in bytes is `size`: the first limit exceeded, in the order
/// maximum size (rejects), partition size, tombstones, collection size, columns (warn).
pub open spec fn write_verdict(g: WriteGuardrails, m: CoordinatedMutation, size: nat) -> GuardrailVerdict {
    if size > g.max_mutation_size {
        GuardrailVerdict::Rejected("Mutation of "@ + nat_decimal(size) + " bytes exceeds maximum of "@
            + nat_decimal(g.max_mutation_size as nat) + " bytes"@)
    } else if size > g.partition_size_warn {
        GuardrailVerdict::Warned("Mutation of "@ + nat_decimal(size)
            + " bytes exceeds partition size warn threshold of "@ + nat_decimal(g.partition_size_warn as nat)
            + " bytes"@)
    } else if tombstone_count(m) > g.tombstone_warn_threshold {
        GuardrailVerdict::Warned("Mutation contains "@ + nat_decimal(tombstone_count(m))
            + " tombstones, exceeds warn threshold of "@ + nat_decimal(g.tombstone_warn_threshold as nat))
    } else if max_collection(m) > g.collection_size_warn {
        GuardrailVerdict::Warned("Collection of "@ + nat_decimal(max_collection(m))
            + " elements exceeds warn threshold of "@ + nat_decimal(g.collection_size_warn as nat))
    } else if column_count(m) > g.columns_per_query_warn {
        GuardrailVerdict::Warned("Query touches "@ + nat_decimal(column_count(m))
            + " columns, exceeds warn threshold of "@ + nat_decimal(g.columns_per_query_warn as nat))
    } else {
        GuardrailVerdict::Allowed
    }
}

fn message3(a: &str, x: usize, b: &str, y: usize, c: &str) -> (r: String)
    ensures
        r@ == a@ + nat_decimal(x as nat) + b@ + nat_decimal(y as nat) + c@,
{
    let mut m = String::new();
    push_str(&mut m, a);
    push_decimal_u64(&mut m, x as u64);
    push_str(&mut m, b);
    push_decimal_u64(&mut m, y as u64);
    push_str(&mut m, c);
    assert(m@ =~= a@ + nat_decimal(x as nat) + b@ + nat_decimal(y as nat) + c@);
    m
}

/// Check the write-path guardrails for `mutation`, whose estimated size in
/// bytes is `estimated_size`.
pub fn check_write_guardrails(guardrails: &WriteGuardrails, mutation: &CoordinatedMutation, estimated_size: usize) -> (r: GuardrailResult)
    requires
        tombstone_count(*mutation) <= usize::MAX,
    ensures
        r@ == write_verdict(*guardrails, *mutation, estimated_size as nat),
{
    let size = estimated_size;
    if size > guardrails.max_mutation_size {
        let m = message3("Mutation of ", size, " bytes exceeds maximum of ", guardrails.max_mutation_size, " bytes");
        assert(m@ =~= "Mutation of "@ + nat_decimal(size as nat) + " bytes exceeds maximum of "@
            + nat_decimal(guardrails.max_mutation_size as nat) + " bytes"@);
        return GuardrailResult::Rejected(m);
    }
    if size > guardrails.partition_size_warn {
        let m = message3("Mutation of ", size, " bytes exceeds partition size warn threshold of ", guardrails.partition_size_warn, " bytes");
        return GuardrailResult::Warned(m);
    }
    let tombstones = count_tombstones(mutation);
    if tombstones > guardrails.tombstone_warn_threshold {
        let m = message3("Mutation contains ", tombstones, " tombstones, exceeds warn threshold of ", guardrails.tombstone_warn_threshold, "");
        assert(m@ =~= "Mutation contains "@ + nat_decimal(tombstones as nat)
            + " tombstones, exceeds warn threshold of "@ + nat_decimal(guardrails.tombstone_warn_threshold as nat)) by {
            assert(""@ =~= Seq::<char>::empty()) by { reveal_strlit(""); }
        }
        return GuardrailResult::Warned(m);
    }
    let max_collection = max_collection_size(mutation);
    if max_collection > guardrails.collection_size_warn {
        let m = message3("Collection of ", max_collection, " elements exceeds warn threshold of ", guardrails.collection_size_warn, "");
        assert(m@ =~= "Collection of "@ + nat_decimal(max_collection as nat)
            + " elements exceeds warn threshold of "@ + nat_decimal(guardrails.collection_size_warn as nat)) by {
            assert(""@ =~= Seq::<char>::empty()) by { reveal_strlit(""); }
        }
        return GuardrailResult::Warned(m);
    }
    let columns = count_columns(mutation);
    if columns > guardrails.columns_per_query_warn {
        let m = message3("Query touches ", columns, " columns, exceeds warn threshold of ", guardrails.columns_per_query_warn, "");
        assert(m@ =~= "Query touches "@ + nat_decimal(columns as nat)
            + " columns, exceeds warn threshold of "@ + nat_decimal(guardrails.columns_per_query_warn as nat)) by {
            assert(""@ =~= Seq::<char>::empty()) by { reveal_strlit(""); }
        }
        return GuardrailResult::Warned(m);
    }
    GuardrailResult::Allowed
}

} // verus!

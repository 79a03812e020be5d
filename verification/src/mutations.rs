//! The commit-log mutations that `DELETE` statements and triggers produce.
use vstd::prelude::*;
use crate::error::ExecutorError;
use crate::java_exec::trunc_div_exec;
use crate::java_semantics::trunc_div;
use crate::relations::{bytes_copy, RelationOp};
use crate::schema::{first_match, lemma_first_match_prefix};
use crate::text::{push_str, str_eq};

verus! {

broadcast use vstd::seq_lib::group_seq_properties;

/// A deletion time: the write timestamp (microseconds) and the local
/// deletion time (seconds).
#[derive(Debug, Clone, Copy, PartialEq, Eq, Structural)]
pub struct Tombstone {
    pub timestamp: i64,
    pub local_deletion_time: i32,
}

/// A deleted range of clustering keys.
#[derive(Debug, PartialEq, Eq)]
pub struct RangeTombstone {
    pub start: Vec<u8>,
    pub end: Vec<u8>,
    pub timestamp: i64,
    pub local_deletion_time: i32,
}

/// A write of one cell.
#[derive(Debug, PartialEq, Eq)]
pub struct CellWrite {
    pub column: String,
    pub value: Option<Vec<u8>>,
    pub timestamp: i64,
    pub ttl: i32,
    pub local_deletion_time: Option<i32>,
    pub is_tombstone: bool,
}

/// A write of one row.
#[derive(Debug, PartialEq, Eq)]
pub struct RowWrite {
    pub clustering_key: Vec<u8>,
    pub cells: Vec<CellWrite>,
    pub is_tombstone: bool,
    pub local_deletion_time: Option<i32>,
}

/// A write of one partition, as the commit log records it.
#[derive(Debug, PartialEq, Eq)]
pub struct Mutation {
    pub keyspace: String,
    pub table: String,
    pub partition_key: Vec<u8>,
    pub rows: Vec<RowWrite>,
    pub timestamp: i64,
    pub cdc_enabled: bool,
    pub static_cells: Vec<CellWrite>,
    pub partition_tombstone: Option<Tombstone>,
    pub range_tombstones: Vec<RangeTombstone>,
}

// ─── DELETE ─────────────────────────────────────────────────────────────

/// A relation of a `DELETE`'s `WHERE` clause, with its value encoded for
/// its column (`None` when it has no encoding).
#[derive(Debug)]
pub struct WhereRelation {
    pub column: String,
    pub op: RelationOp,
    pub value: Option<Vec<u8>>,
}

/// What the key relations of a `DELETE` give: the partition key bytes, the
/// clustering key bytes of equality relations, and the bounds of a
/// clustering range.
pub struct KeyScan {
    pub partition_key: Seq<u8>,
    pub clustering_key: Seq<u8>,
    pub has_clustering_eq: bool,
    pub range_start: Option<Seq<u8>>,
    pub range_end: Option<Seq<u8>>,
    pub has_range: bool,
}

/// Whether `names` holds `name`.
pub open spec fn has_name(names: Seq<String>, name: Seq<char>) -> bool {
    exists|i: int| 0 <= i < names.len() && (#[trigger] names[i])@ == name
}

/// The key scan of the relations: partition key relations append their
/// values to the partition key; on clustering columns, `>`/`>=` set the
/// range start, `<`/`<=` the range end, and any other operator appends
/// its value to the clustering key. Relations without a value change
/// nothing; relations on other columns are ignored.
pub open spec fn key_scan(rels: Seq<WhereRelation>, pk: Seq<String>, ck: Seq<String>) -> KeyScan
    decreases rels.len(),
{
    if rels.len() == 0 {
        KeyScan { partition_key: seq![], clustering_key: seq![], has_clustering_eq: false, range_start: None,
            range_end: None, has_range: false }
    } else {
        let s = key_scan(rels.drop_last(), pk, ck);
        let r = rels.last();
        match r.value {
            None => s,
            Some(v) => if has_name(pk, r.column@) {
                KeyScan { partition_key: s.partition_key + v@, ..s }
            } else if has_name(ck, r.column@) {
                match r.op {
                    RelationOp::Gt | RelationOp::Gte => KeyScan { range_start: Some(v@), has_range: true, ..s },
                    RelationOp::Lt | RelationOp::Lte => KeyScan { range_end: Some(v@), has_range: true, ..s },
                    _ => KeyScan { clustering_key: s.clustering_key + v@, has_clustering_eq: true, ..s },
                }
            } else {
                s
            },
        }
    }
}

/// A relation with a value on a clustering column (not a partition key
/// column) bounds the clustering range: `>` and `>=` set its start to the
/// value, `<` and `<=` its end, and neither adds to the clustering key or
/// the partition key; `=` instead appends the value to the clustering key.
pub proof fn lemma_clustering_bounds(rels: Seq<WhereRelation>, r: WhereRelation, pk: Seq<String>, ck: Seq<String>)
    requires
        r.value is Some,
        has_name(ck, r.column@),
        !has_name(pk, r.column@),
    ensures
        ({
            let before = key_scan(rels, pk, ck);
            let after = key_scan(rels.push(r), pk, ck);
            let v = r.value->0@;
            &&& after.partition_key == before.partition_key
            &&& (r.op == RelationOp::Gt || r.op == RelationOp::Gte) ==> {
                &&& after.range_start == Some(v)
                &&& after.range_end == before.range_end
                &&& after.has_range
                &&& after.clustering_key == before.clustering_key
                &&& after.has_clustering_eq == before.has_clustering_eq
            }
            &&& (r.op == RelationOp::Lt || r.op == RelationOp::Lte) ==> {
                &&& after.range_end == Some(v)
                &&& after.range_start == before.range_start
                &&& after.has_range
                &&& after.clustering_key == before.clustering_key
                &&& after.has_clustering_eq == before.has_clustering_eq
            }
            &&& r.op == RelationOp::Eq ==> {
                &&& after.clustering_key == before.clustering_key + v
                &&& after.has_clustering_eq
                &&& after.range_start == before.range_start
                &&& after.range_end == before.range_end
            }
        }),
{
    assert(rels.push(r).drop_last() =~= rels);
}

/// A `DELETE` of whole rows whose last relation is `>`, `>=`, `<` or `<=`
/// on a clustering column deletes a range: no rows, no partition
/// tombstone, one range tombstone that starts at the value (for `>`, `>=`)
/// or ends at it (for `<`, `<=`).
pub proof fn lemma_delete_range_from_bound(m: Mutation, keyspace: Seq<char>, table: Seq<char>, pk: Seq<String>,
    ck: Seq<String>, rels: Seq<WhereRelation>, r: WhereRelation, now: i64, secs: i32)
    requires
        r.value is Some,
        has_name(ck, r.column@),
        !has_name(pk, r.column@),
        r.op == RelationOp::Gt || r.op == RelationOp::Gte || r.op == RelationOp::Lt || r.op == RelationOp::Lte,
        delete_mutation_at(m, keyspace, table, pk, ck, rels.push(r), Seq::<String>::empty(), now, secs),
    ensures
        m.rows@.len() == 0,
        m.partition_tombstone is None,
        m.range_tombstones@.len() == 1,
        (r.op == RelationOp::Gt || r.op == RelationOp::Gte) ==> m.range_tombstones@[0].start@ == r.value->0@,
        (r.op == RelationOp::Lt || r.op == RelationOp::Lte) ==> m.range_tombstones@[0].end@ == r.value->0@,
        m.range_tombstones@[0].timestamp == now,
        m.range_tombstones@[0].local_deletion_time == secs,
{
    lemma_clustering_bounds(rels, r, pk, ck);
}

/// The local deletion time of a timestamp: its whole seconds, as `i32`.
pub open spec fn deletion_seconds(now: i64) -> i32 {
    trunc_div(now as int, 1000000) as i32
}

/// The bytes of an optional bound, empty when there is none.
pub open spec fn bound_or_empty(b: Option<Seq<u8>>) -> Seq<u8> {
    match b {
        Some(v) => v,
        None => seq![],
    }
}

/// Whether `m` is the mutation a `DELETE` of `columns` (all of them when
/// empty) from `keyspace.table` at time `now` makes, for the key relations
/// `rels`: a partition tombstone when the table has clustering columns and
/// no clustering relation restricts them, a range tombstone when a
/// clustering range is given, else a deletion of the row or of its cells.
pub open spec fn delete_mutation(m: Mutation, keyspace: Seq<char>, table: Seq<char>, pk: Seq<String>, ck: Seq<String>,
    rels: Seq<WhereRelation>, columns: Seq<String>, now: i64) -> bool {
    delete_mutation_at(m, keyspace, table, pk, ck, rels, columns, now, deletion_seconds(now))
}

/// Whether `m` is the mutation such a `DELETE` makes at time `now` with the
/// local deletion time `secs` (seconds) on its tombstones.
pub open spec fn delete_mutation_at(m: Mutation, keyspace: Seq<char>, table: Seq<char>, pk: Seq<String>, ck: Seq<String>,
    rels: Seq<WhereRelation>, columns: Seq<String>, now: i64, secs: i32) -> bool {
    let s = key_scan(rels, pk, ck);
    &&& m.keyspace@ == keyspace
    &&& m.table@ == table
    &&& m.partition_key@ == s.partition_key
    &&& m.timestamp == now
    &&& !m.cdc_enabled
    &&& m.static_cells@.len() == 0
    &&& if ck.len() > 0 && !s.has_clustering_eq && !s.has_range && columns.len() == 0 {
        &&& m.rows@.len() == 0
        &&& m.partition_tombstone == Some(Tombstone { timestamp: now, local_deletion_time: secs })
        &&& m.range_tombstones@.len() == 0
    } else if s.has_range && columns.len() == 0 {
        &&& m.rows@.len() == 0
        &&& m.partition_tombstone is None
        &&& m.range_tombstones@.len() == 1
        &&& m.range_tombstones@[0].start@ == bound_or_empty(s.range_start)
        &&& m.range_tombstones@[0].end@ == bound_or_empty(s.range_end)
        &&& m.range_tombstones@[0].timestamp == now
        &&& m.range_tombstones@[0].local_deletion_time == secs
    } else {
        &&& m.partition_tombstone is None
        &&& m.range_tombstones@.len() == 0
        &&& m.rows@.len() == 1
        &&& m.rows@[0].clustering_key@ == s.clustering_key
        &&& m.rows@[0].is_tombstone == (columns.len() == 0)
        &&& m.rows@[0].local_deletion_time == (if columns.len() == 0 { Some(secs) } else { None })
        &&& m.rows@[0].cells@.len() == columns.len()
        &&& forall|i: int| 0 <= i < columns.len() ==> {
            let c = #[trigger] m.rows@[0].cells@[i];
            &&& c.column@ == columns[i]@
            &&& c.value is None
            &&& c.timestamp == now
            &&& c.ttl == 0
            &&& c.local_deletion_time == Some(secs)
            &&& c.is_tombstone
        }
    }
}

fn has_name_exec(names: &[String], name: &str) -> (r: bool)
    ensures
        r == has_name(names@, name@),
{
    let mut i: usize = 0;
    while i < names.len()
        invariant
            i <= names@.len(),
            forall|j: int| 0 <= j < i ==> (#[trigger] names@[j])@ != name@,
        decreases names.len() - i,
    {
        if str_eq(names[i].as_str(), name) {
            return true;
        }
        i = i + 1;
    }
    false
}

fn append_bytes(out: &mut Vec<u8>, b: &[u8])
    ensures
        final(out)@ == old(out)@ + b@,
{
    let mut i: usize = 0;
    while i < b.len()
        invariant
            i <= b@.len(),
            out@ == old(out)@ + b@.subrange(0, i as int),
        decreases b.len() - i,
    {
        out.push(b[i]);
        i = i + 1;
        assert(out@ =~= old(out)@ + b@.subrange(0, i as int));
    }
    assert(b@.subrange(0, b@.len() as int) =~= b@);
}

/// The mutation a `DELETE` of `columns` (every column when empty) from
/// `keyspace.table` makes at time `now` (microseconds) within a batch,
/// its tombstones dated by the whole seconds of `now`, given the
/// relations of its `WHERE` clause with their encoded values and the
/// names of the partition key and clustering columns.
pub fn build_delete_mutation(
    keyspace: &str,
    table: &str,
    pk_names: &[String],
    ck_names: &[String],
    relations: &[WhereRelation],
    columns: &[String],
    now: i64,
) -> (m: Mutation)
    ensures
        delete_mutation(m, keyspace@, table@, pk_names@, ck_names@, relations@, columns@, now),
{
    let secs = trunc_div_exec(now as i128, 1000000) as i32;
    build_delete_mutation_at(keyspace, table, pk_names, ck_names, relations, columns, now, secs)
}

/// The mutation a single `DELETE` statement makes: as `build_delete_mutation`,
/// with the write timestamp `now` (its `USING TIMESTAMP`, else the clock)
/// and the local deletion time `secs` (the clock's seconds) given apart.
pub fn build_delete_mutation_at(
    keyspace: &str,
    table: &str,
    pk_names: &[String],
    ck_names: &[String],
    relations: &[WhereRelation],
    columns: &[String],
    now: i64,
    secs: i32,
) -> (m: Mutation)
    ensures
        delete_mutation_at(m, keyspace@, table@, pk_names@, ck_names@, relations@, columns@, now, secs),
{
    let mut pk_bytes: Vec<u8> = Vec::new();
    let mut ck_eq_bytes: Vec<u8> = Vec::new();
    let mut has_ck_eq = false;
    let mut range_start: Option<Vec<u8>> = None;
    let mut range_end: Option<Vec<u8>> = None;
    let mut has_range = false;
    let mut i: usize = 0;
    while i < relations.len()
        invariant
            i <= relations@.len(),
            ({
                let s = key_scan(relations@.subrange(0, i as int), pk_names@, ck_names@);
                &&& pk_bytes@ == s.partition_key
                &&& ck_eq_bytes@ == s.clustering_key
                &&& has_ck_eq == s.has_clustering_eq
                &&& (match range_start { Some(v) => Some(v@), None => None::<Seq<u8>> }) == s.range_start
                &&& (match range_end { Some(v) => Some(v@), None => None::<Seq<u8>> }) == s.range_end
                &&& has_range == s.has_range
            }),
        decreases relations.len() - i,
    {
        assert(relations@.subrange(0, i + 1).drop_last() =~= relations@.subrange(0, i as int));
        let rel = &relations[i];
        match &rel.value {
            None => {},
            Some(v) => {
                if has_name_exec(pk_names, rel.column.as_str()) {
                    append_bytes(&mut pk_bytes, v.as_slice());
                } else if has_name_exec(ck_names, rel.column.as_str()) {
                    match rel.op {
                        RelationOp::Gt | RelationOp::Gte => {
                            range_start = Some(bytes_copy(v.as_slice()));
                            has_range = true;
                        },
                        RelationOp::Lt | RelationOp::Lte => {
                            range_end = Some(bytes_copy(v.as_slice()));
                            has_range = true;
                        },
                        _ => {
                            append_bytes(&mut ck_eq_bytes, v.as_slice());
                            has_ck_eq = true;
                        },
                    }
                }
            },
        }
        i = i + 1;
    }
    assert(relations@.subrange(0, relations@.len() as int) =~= relations@);
    let is_partition_delete = ck_names.len() > 0 && !has_ck_eq && !has_range;
    if is_partition_delete && columns.len() == 0 {
        return Mutation {
            keyspace: keyspace.to_string(),
            table: table.to_string(),
            partition_key: pk_bytes,
            rows: Vec::new(),
            timestamp: now,
            cdc_enabled: false,
            static_cells: Vec::new(),
            partition_tombstone: Some(Tombstone { timestamp: now, local_deletion_time: secs }),
            range_tombstones: Vec::new(),
        };
    }
    if has_range && columns.len() == 0 {
        let start = match range_start {
            Some(v) => v,
            None => Vec::new(),
        };
        let end = match range_end {
            Some(v) => v,
            None => Vec::new(),
        };
        let mut ranges: Vec<RangeTombstone> = Vec::new();
        ranges.push(RangeTombstone { start, end, timestamp: now, local_deletion_time: secs });
        return Mutation {
            keyspace: keyspace.to_string(),
            table: table.to_string(),
            partition_key: pk_bytes,
            rows: Vec::new(),
            timestamp: now,
            cdc_enabled: false,
            static_cells: Vec::new(),
            partition_tombstone: None,
            range_tombstones: ranges,
        };
    }
    let is_row_delete = columns.len() == 0;
    let mut cells: Vec<CellWrite> = Vec::new();
    let mut j: usize = 0;
    while j < columns.len()
        invariant
            j <= columns@.len(),
            cells@.len() == j,
            forall|k: int| 0 <= k < j ==> {
                let c = #[trigger] cells@[k];
                &&& c.column@ == columns@[k]@
                &&& c.value is None
                &&& c.timestamp == now
                &&& c.ttl == 0
                &&& c.local_deletion_time == Some(secs)
                &&& c.is_tombstone
            },
        decreases columns.len() - j,
    {
        cells.push(CellWrite {
            column: columns[j].clone(),
            value: None,
            timestamp: now,
            ttl: 0,
            local_deletion_time: Some(secs),
            is_tombstone: true,
        });
        j = j + 1;
    }
    let mut rows: Vec<RowWrite> = Vec::new();
    rows.push(RowWrite {
        clustering_key: ck_eq_bytes,
        cells,
        is_tombstone: is_row_delete,
        local_deletion_time: if is_row_delete { Some(secs) } else { None },
    });
    Mutation {
        keyspace: keyspace.to_string(),
        table: table.to_string(),
        partition_key: pk_bytes,
        rows,
        timestamp: now,
        cdc_enabled: false,
        static_cells: Vec::new(),
        partition_tombstone: None,
        range_tombstones: Vec::new(),
    }
}

// ─── INSERT / UPDATE ────────────────────────────────────────────────────

/// The key bytes and cells an `INSERT` gives: the values of partition key
/// and clustering columns are appended to their keys; every other column
/// becomes a cell with its value (`None` for a null or missing value), a
/// static column's cell among the static cells.
pub struct InsertScan {
    pub partition_key: Seq<u8>,
    pub clustering_key: Seq<u8>,
    pub cells: Seq<(Seq<char>, Option<Seq<u8>>)>,
    pub static_cells: Seq<(Seq<char>, Option<Seq<u8>>)>,
}

/// The value given for the `i`-th column.
pub open spec fn value_at(values: Seq<Option<Vec<u8>>>, i: int) -> Option<Seq<u8>> {
    if i < values.len() {
        match values[i] {
            Some(v) => Some(v@),
            None => None,
        }
    } else {
        None
    }
}

/// The scan of the first `n` columns of an `INSERT`.
pub open spec fn insert_scan(columns: Seq<String>, values: Seq<Option<Vec<u8>>>, pk: Seq<String>, ck: Seq<String>,
    st: Seq<String>, n: int) -> InsertScan
    decreases n,
{
    if n <= 0 {
        InsertScan { partition_key: seq![], clustering_key: seq![], cells: seq![], static_cells: seq![] }
    } else {
        let s = insert_scan(columns, values, pk, ck, st, n - 1);
        let name = columns[n - 1]@;
        let v = value_at(values, n - 1);
        if has_name(pk, name) {
            InsertScan { partition_key: s.partition_key + bound_or_empty(v), ..s }
        } else if has_name(ck, name) {
            InsertScan { clustering_key: s.clustering_key + bound_or_empty(v), ..s }
        } else if has_name(st, name) {
            InsertScan { static_cells: s.static_cells.push((name, v)), ..s }
        } else {
            InsertScan { cells: s.cells.push((name, v)), ..s }
        }
    }
}

/// The time-to-live a write gives its cells: its `USING TTL`, else 0.
pub open spec fn write_ttl(ttl: Option<i32>) -> i32 {
    match ttl {
        Some(t) => t,
        None => 0,
    }
}

/// When the cells of a write expire: `now_secs` plus a positive TTL, else never.
pub open spec fn write_expiry(ttl: Option<i32>, now_secs: i32) -> Option<i32> {
    if write_ttl(ttl) > 0 { Some((now_secs + write_ttl(ttl)) as i32) } else { None }
}

/// Whether the expiry of a positive TTL fits in an `i32`.
pub open spec fn expiry_fits(ttl: Option<i32>, now_secs: i32) -> bool {
    write_ttl(ttl) > 0 ==> now_secs + write_ttl(ttl) <= i32::MAX
}

/// Whether `cs` are live cells holding exactly `cells`, written at `now`
/// with time-to-live `ttl` and expiry `expiry`.
pub open spec fn live_cells(cs: Seq<CellWrite>, cells: Seq<(Seq<char>, Option<Seq<u8>>)>, now: i64, ttl: i32, expiry: Option<i32>) -> bool {
    &&& cs.len() == cells.len()
    &&& forall|i: int| 0 <= i < cells.len() ==> {
        let c = #[trigger] cs[i];
        &&& c.column@ == cells[i].0
        &&& (match c.value { Some(v) => Some(v@), None => None::<Seq<u8>> }) == cells[i].1
        &&& c.timestamp == now
        &&& c.ttl == ttl
        &&& c.local_deletion_time == expiry
        &&& !c.is_tombstone
    }
}

/// Whether `m` writes one live row into the partition `partition_key`, at
/// clustering key `clustering_key`, with exactly the cells `cells` and the
/// static cells `static_cells`, at time `now` with time-to-live `ttl`
/// expiring at `expiry`.
pub open spec fn live_row_mutation(m: Mutation, keyspace: Seq<char>, table: Seq<char>, partition_key: Seq<u8>,
    clustering_key: Seq<u8>, cells: Seq<(Seq<char>, Option<Seq<u8>>)>, static_cells: Seq<(Seq<char>, Option<Seq<u8>>)>,
    now: i64, ttl: i32, expiry: Option<i32>) -> bool {
    &&& m.keyspace@ == keyspace
    &&& m.table@ == table
    &&& m.partition_key@ == partition_key
    &&& m.timestamp == now
    &&& !m.cdc_enabled
    &&& live_cells(m.static_cells@, static_cells, now, ttl, expiry)
    &&& m.partition_tombstone is None
    &&& m.range_tombstones@.len() == 0
    &&& m.rows@.len() == 1
    &&& m.rows@[0].clustering_key@ == clustering_key
    &&& !m.rows@[0].is_tombstone
    &&& m.rows@[0].local_deletion_time is None
    &&& live_cells(m.rows@[0].cells@, cells, now, ttl, expiry)
}

fn copy_value(v: &Option<Vec<u8>>) -> (r: Option<Vec<u8>>)
    ensures
        (match r { Some(b) => Some(b@), None => None::<Seq<u8>> }) == (match *v { Some(b) => Some(b@), None => None::<Seq<u8>> }),
{
    match v {
        Some(b) => Some(bytes_copy(b.as_slice())),
        None => None,
    }
}

/// The mutation an `INSERT` into `keyspace.table` of `values` for
/// `columns` makes at time `now` (its `USING TIMESTAMP`, else the clock):
/// the key columns' values form the partition and clustering keys, every
/// other column is written as a live cell (a column without a value as
/// null), a static column's cell among the static cells. The cells carry
/// the statement's `USING TTL` (0 without one) and, for a positive TTL,
/// expire `ttl` seconds after `now_secs`, the clock's seconds. A batch
/// passes no TTL and no static columns.
pub fn build_insert_mutation(
    keyspace: &str,
    table: &str,
    pk_names: &[String],
    ck_names: &[String],
    static_names: &[String],
    columns: &[String],
    values: &[Option<Vec<u8>>],
    now: i64,
    ttl: Option<i32>,
    now_secs: i32,
) -> (m: Mutation)
    requires
        expiry_fits(ttl, now_secs),
    ensures
        ({
            let s = insert_scan(columns@, values@, pk_names@, ck_names@, static_names@, columns@.len() as int);
            live_row_mutation(m, keyspace@, table@, s.partition_key, s.clustering_key, s.cells, s.static_cells, now,
                write_ttl(ttl), write_expiry(ttl, now_secs))
        }),
{
    let cell_ttl: i32 = match ttl {
        Some(t) => t,
        None => 0,
    };
    let expiry: Option<i32> = if cell_ttl > 0 { Some(now_secs + cell_ttl) } else { None };
    let mut pk_bytes: Vec<u8> = Vec::new();
    let mut ck_bytes: Vec<u8> = Vec::new();
    let mut cells: Vec<CellWrite> = Vec::new();
    let mut static_cells: Vec<CellWrite> = Vec::new();
    let mut i: usize = 0;
    while i < columns.len()
        invariant
            i <= columns@.len(),
            cell_ttl == write_ttl(ttl),
            expiry == write_expiry(ttl, now_secs),
            ({
                let s = insert_scan(columns@, values@, pk_names@, ck_names@, static_names@, i as int);
                &&& pk_bytes@ == s.partition_key
                &&& ck_bytes@ == s.clustering_key
                &&& live_cells(cells@, s.cells, now, cell_ttl, expiry)
                &&& live_cells(static_cells@, s.static_cells, now, cell_ttl, expiry)
            }),
        decreases columns.len() - i,
    {
        let value: Option<Vec<u8>> = if i < values.len() { copy_value(&values[i]) } else { None };
        let name = columns[i].as_str();
        if has_name_exec(pk_names, name) {
            if let Some(v) = &value {
                append_bytes(&mut pk_bytes, v.as_slice());
            }
        } else if has_name_exec(ck_names, name) {
            if let Some(v) = &value {
                append_bytes(&mut ck_bytes, v.as_slice());
            }
        } else {
            let cell = CellWrite {
                column: columns[i].clone(),
                value,
                timestamp: now,
                ttl: cell_ttl,
                local_deletion_time: expiry,
                is_tombstone: false,
            };
            if has_name_exec(static_names, name) {
                static_cells.push(cell);
            } else {
                cells.push(cell);
            }
        }
        i = i + 1;
    }
    let mut rows: Vec<RowWrite> = Vec::new();
    rows.push(RowWrite { clustering_key: ck_bytes, cells, is_tombstone: false, local_deletion_time: None });
    Mutation {
        keyspace: keyspace.to_string(),
        table: table.to_string(),
        partition_key: pk_bytes,
        rows,
        timestamp: now,
        cdc_enabled: false,
        static_cells,
        partition_tombstone: None,
        range_tombstones: Vec::new(),
    }
}

/// The partition and clustering key bytes the relations of an `UPDATE`
/// give: each relation on a key column appends its value to that key.
pub open spec fn update_keys(rels: Seq<WhereRelation>, pk: Seq<String>, ck: Seq<String>) -> (Seq<u8>, Seq<u8>)
    decreases rels.len(),
{
    if rels.len() == 0 {
        (seq![], seq![])
    } else {
        let (p, c) = update_keys(rels.drop_last(), pk, ck);
        let r = rels.last();
        match r.value {
            None => (p, c),
            Some(v) => if has_name(pk, r.column@) {
                (p + v@, c)
            } else if has_name(ck, r.column@) {
                (p, c + v@)
            } else {
                (p, c)
            },
        }
    }
}

/// The cells of an `UPDATE`'s assignments.
pub open spec fn assignment_cells(assignments: Seq<(String, Option<Vec<u8>>)>) -> Seq<(Seq<char>, Option<Seq<u8>>)> {
    assignments.map_values(|a: (String, Option<Vec<u8>>)| (a.0@, match a.1 { Some(v) => Some(v@), None => None::<Seq<u8>> }))
}

/// The mutation an `UPDATE` of `keyspace.table` makes at time `now` (its
/// `USING TIMESTAMP`, else the clock): the key relations locate the row,
/// and each assignment (a column and its encoded value) is written as a
/// live cell carrying the statement's `USING TTL` (0 without one) and, for
/// a positive TTL, expiring `ttl` seconds after `now_secs`, the clock's
/// seconds. A batch passes no TTL.
pub fn build_update_mutation(
    keyspace: &str,
    table: &str,
    pk_names: &[String],
    ck_names: &[String],
    relations: &[WhereRelation],
    assignments: &[(String, Option<Vec<u8>>)],
    now: i64,
    ttl: Option<i32>,
    now_secs: i32,
) -> (m: Mutation)
    requires
        expiry_fits(ttl, now_secs),
    ensures
        live_row_mutation(m, keyspace@, table@, update_keys(relations@, pk_names@, ck_names@).0,
            update_keys(relations@, pk_names@, ck_names@).1, assignment_cells(assignments@), seq![], now,
            write_ttl(ttl), write_expiry(ttl, now_secs)),
{
    let cell_ttl: i32 = match ttl {
        Some(t) => t,
        None => 0,
    };
    let expiry: Option<i32> = if cell_ttl > 0 { Some(now_secs + cell_ttl) } else { None };
    let mut pk_bytes: Vec<u8> = Vec::new();
    let mut ck_bytes: Vec<u8> = Vec::new();
    let mut i: usize = 0;
    while i < relations.len()
        invariant
            i <= relations@.len(),
            (pk_bytes@, ck_bytes@) == update_keys(relations@.subrange(0, i as int), pk_names@, ck_names@),
        decreases relations.len() - i,
    {
        assert(relations@.subrange(0, i + 1).drop_last() =~= relations@.subrange(0, i as int));
        let rel = &relations[i];
        if let Some(v) = &rel.value {
            if has_name_exec(pk_names, rel.column.as_str()) {
                append_bytes(&mut pk_bytes, v.as_slice());
            } else if has_name_exec(ck_names, rel.column.as_str()) {
                append_bytes(&mut ck_bytes, v.as_slice());
            }
        }
        i = i + 1;
    }
    assert(relations@.subrange(0, relations@.len() as int) =~= relations@);
    let mut cells: Vec<CellWrite> = Vec::new();
    let mut j: usize = 0;
    while j < assignments.len()
        invariant
            j <= assignments@.len(),
            cells@.len() == j,
            cell_ttl == write_ttl(ttl),
            expiry == write_expiry(ttl, now_secs),
            forall|k: int| 0 <= k < j ==> {
                let c = #[trigger] cells@[k];
                &&& c.column@ == assignment_cells(assignments@)[k].0
                &&& (match c.value { Some(v) => Some(v@), None => None::<Seq<u8>> }) == assignment_cells(assignments@)[k].1
                &&& c.timestamp == now
                &&& c.ttl == cell_ttl
                &&& c.local_deletion_time == expiry
                &&& !c.is_tombstone
            },
        decreases assignments.len() - j,
    {
        cells.push(CellWrite {
            column: assignments[j].0.clone(),
            value: copy_value(&assignments[j].1),
            timestamp: now,
            ttl: cell_ttl,
            local_deletion_time: expiry,
            is_tombstone: false,
        });
        j = j + 1;
    }
    let mut rows: Vec<RowWrite> = Vec::new();
    rows.push(RowWrite { clustering_key: ck_bytes, cells, is_tombstone: false, local_deletion_time: None });
    Mutation {
        keyspace: keyspace.to_string(),
        table: table.to_string(),
        partition_key: pk_bytes,
        rows,
        timestamp: now,
        cdc_enabled: false,
        static_cells: Vec::new(),
        partition_tombstone: None,
        range_tombstones: Vec::new(),
    }
}

// ─── triggers ───────────────────────────────────────────────────────────

/// A write a trigger asks for: the partition key's components and the
/// columns it sets with their values.
#[derive(Debug)]
pub struct TriggerMutation {
    pub keyspace: String,
    pub table: String,
    pub partition_key: Vec<Vec<u8>>,
    pub mutations: Vec<(String, Vec<u8>)>,
}

/// The concatenation of byte strings.
pub open spec fn concat_bytes(parts: Seq<Vec<u8>>) -> Seq<u8>
    decreases parts.len(),
{
    if parts.len() == 0 {
        seq![]
    } else {
        concat_bytes(parts.drop_last()) + parts.last()@
    }
}

/// `m` records the trigger's write `t` at time `timestamp`: one row with an
/// empty clustering key holding a live cell per written column.
pub open spec fn records_trigger(m: Mutation, t: TriggerMutation, timestamp: i64) -> bool {
    &&& m.keyspace == t.keyspace
    &&& m.table == t.table
    &&& m.partition_key@ == concat_bytes(t.partition_key@)
    &&& m.timestamp == timestamp
    &&& !m.cdc_enabled
    &&& m.static_cells@.len() == 0
    &&& m.partition_tombstone is None
    &&& m.range_tombstones@.len() == 0
    &&& m.rows@.len() == 1
    &&& m.rows@[0].clustering_key@.len() == 0
    &&& !m.rows@[0].is_tombstone
    &&& m.rows@[0].local_deletion_time is None
    &&& m.rows@[0].cells@.len() == t.mutations@.len()
    &&& forall|i: int| 0 <= i < t.mutations@.len() ==> {
        let c = #[trigger] m.rows@[0].cells@[i];
        &&& c.column == t.mutations@[i].0
        &&& c.value == Some(t.mutations@[i].1)
        &&& c.timestamp == timestamp
        &&& c.ttl == 0
        &&& c.local_deletion_time is None
        &&& !c.is_tombstone
    }
}

/// The mutation that records a trigger's write at time `timestamp`: one
/// row with an empty clustering key holding a live cell per written column.
pub fn trigger_mutation_to_commitlog_mutation(trigger_mutation: TriggerMutation, timestamp: i64) -> (m: Mutation)
    ensures
        records_trigger(m, trigger_mutation, timestamp),
{
    let TriggerMutation { keyspace, table, partition_key: parts, mutations } = trigger_mutation;
    let mut partition_key: Vec<u8> = Vec::new();
    let mut i: usize = 0;
    while i < parts.len()
        invariant
            i <= parts@.len(),
            partition_key@ == concat_bytes(parts@.subrange(0, i as int)),
        decreases parts.len() - i,
    {
        assert(parts@.subrange(0, i + 1).drop_last() =~= parts@.subrange(0, i as int));
        append_bytes(&mut partition_key, parts[i].as_slice());
        i = i + 1;
    }
    assert(parts@.subrange(0, parts@.len() as int) =~= parts@);
    let ghost all = mutations@;
    let mut cells: Vec<CellWrite> = Vec::new();
    let mut rest = mutations;
    let ghost mut k: int = 0;
    while rest.len() > 0
        invariant
            0 <= k <= all.len(),
            rest@ == all.subrange(k, all.len() as int),
            cells@.len() == k,
            forall|j: int| 0 <= j < k ==> {
                let c = #[trigger] cells@[j];
                &&& c.column == all[j].0
                &&& c.value == Some(all[j].1)
                &&& c.timestamp == timestamp
                &&& c.ttl == 0
                &&& c.local_deletion_time is None
                &&& !c.is_tombstone
            },
        decreases rest.len(),
    {
        let (column, value) = rest.remove(0);
        assert(column == all[k].0 && value == all[k].1);
        cells.push(CellWrite { column, value: Some(value), timestamp, ttl: 0, local_deletion_time: None, is_tombstone: false });
        proof {
            k = k + 1;
            assert(rest@ =~= all.subrange(k, all.len() as int));
        }
    }
    let mut rows: Vec<RowWrite> = Vec::new();
    rows.push(RowWrite { clustering_key: Vec::new(), cells, is_tombstone: false, local_deletion_time: None });
    Mutation {
        keyspace,
        table,
        partition_key,
        rows,
        timestamp,
        cdc_enabled: false,
        static_cells: Vec::new(),
        partition_tombstone: None,
        range_tombstones: Vec::new(),
    }
}

// ─── batches ────────────────────────────────────────────────────────────

/// What a statement of a batch is.
#[derive(Debug, Clone, Copy, PartialEq, Eq)]
pub enum BatchStatementKind {
    Insert,
    Update,
    Delete,
    /// Any statement that is not a data modification.
    Other,
}

/// A statement a batch cannot hold: one that modifies no data, or any
/// modification in a counter batch.
pub open spec fn batch_offender(counter: bool) -> spec_fn(BatchStatementKind) -> bool {
    |k: BatchStatementKind| k == BatchStatementKind::Other || counter
}

/// Whether a batch may run: the first statement it cannot hold refuses it.
pub fn validate_batch(counter: bool, kinds: &[BatchStatementKind]) -> (r: Result<(), ExecutorError>)
    ensures
        match first_match(kinds@, batch_offender(counter)) {
            None => r is Ok,
            Some(i) => if kinds@[i] == BatchStatementKind::Other {
                r matches Err(ExecutorError::InvalidQuery(m))
                    && m@ == "Batch statements may only contain INSERT, UPDATE, or DELETE"@
            } else {
                r matches Err(ExecutorError::InvalidQuery(m))
                    && m@ == "Cannot mix counter and non-counter mutations in a batch"@
            },
        },
{
    let mut i: usize = 0;
    while i < kinds.len()
        invariant
            i <= kinds@.len(),
            first_match(kinds@.subrange(0, i as int), batch_offender(counter)) is None,
        decreases kinds.len() - i,
    {
        assert(kinds@.subrange(0, i + 1).drop_last() =~= kinds@.subrange(0, i as int));
        match kinds[i] {
            BatchStatementKind::Other => {
                proof { lemma_first_match_prefix(kinds@, batch_offender(counter), i + 1); }
                let mut m = String::new();
                push_str(&mut m, "Batch statements may only contain INSERT, UPDATE, or DELETE");
                return Err(ExecutorError::InvalidQuery(m));
            },
            _ => {
                if counter {
                    proof { lemma_first_match_prefix(kinds@, batch_offender(counter), i + 1); }
                    let mut m = String::new();
                    push_str(&mut m, "Cannot mix counter and non-counter mutations in a batch");
                    return Err(ExecutorError::InvalidQuery(m));
                }
            },
        }
        i = i + 1;
    }
    assert(kinds@.subrange(0, kinds@.len() as int) =~= kinds@);
    Ok(())
}

/// The number of trigger writes of each statement.
pub open spec fn trigger_counts(parts: Seq<(Mutation, Vec<TriggerMutation>)>) -> Seq<int> {
    Seq::new(parts.len(), |i: int| parts[i].1@.len() as int)
}

/// Where each mutation of a batch comes from, in the order they are
/// applied: `(p, -1)` for statement `p`'s own mutation, `(p, t)` for its
/// trigger write `t`, each statement's trigger writes right after it.
pub open spec fn batch_slots(counts: Seq<int>) -> Seq<(int, int)>
    decreases counts.len(),
{
    if counts.len() == 0 {
        seq![]
    } else {
        let p = counts.len() - 1;
        batch_slots(counts.drop_last()) + seq![(p, -1int)] + Seq::new(counts.last() as nat, |t: int| (p, t))
    }
}

/// `m` is the mutation that slot `slot` of the batch holds.
pub open spec fn fills_slot(m: Mutation, slot: (int, int), parts: Seq<(Mutation, Vec<TriggerMutation>)>, now: i64) -> bool {
    if slot.1 == -1 {
        m == parts[slot.0].0
    } else {
        records_trigger(m, parts[slot.0].1@[slot.1], now)
    }
}

/// The mutations a batch applies: each statement's mutation followed by
/// the writes its triggers asked for, recorded at time `now`.
pub fn collect_batch_mutations(parts: Vec<(Mutation, Vec<TriggerMutation>)>, now: i64) -> (r: Vec<Mutation>)
    ensures
        r@.len() == batch_slots(trigger_counts(parts@)).len(),
        forall|k: int| 0 <= k < r@.len() ==> fills_slot(#[trigger] r@[k], batch_slots(trigger_counts(parts@))[k], parts@, now),
{
    let ghost all = parts@;
    let mut out: Vec<Mutation> = Vec::new();
    let mut rest = parts;
    let mut k: usize = 0;
    assert(all.len() == rest.len());
    while rest.len() > 0
        invariant
            all == parts@,
            k <= all.len() <= usize::MAX,
            rest@ == all.subrange(k as int, all.len() as int),
            out@.len() == batch_slots(trigger_counts(all.subrange(0, k as int))).len(),
            forall|j: int| 0 <= j < out@.len()
                ==> fills_slot(#[trigger] out@[j], batch_slots(trigger_counts(all.subrange(0, k as int)))[j], all, now),
        decreases rest.len(),
    {
        assert(k < all.len());
        let ghost prefix = batch_slots(trigger_counts(all.subrange(0, k as int)));
        let ghost base = out@.len();
        let (mutation, triggers) = rest.remove(0);
        assert(mutation == all[k as int].0 && triggers@ == all[k as int].1@);
        out.push(mutation);
        let ghost tall = triggers@;
        let mut trest = triggers;
        let mut t: usize = 0;
        assert(tall.len() == trest.len());
        while trest.len() > 0
            invariant
                all == parts@,
                k < all.len(),
                tall == all[k as int].1@,
                t <= tall.len() <= usize::MAX,
                trest@ == tall.subrange(t as int, tall.len() as int),
                base == prefix.len(),
                out@.len() == base + 1 + t,
                forall|j: int| 0 <= j < base ==> fills_slot(#[trigger] out@[j], prefix[j], all, now),
                out@[base as int] == all[k as int].0,
                forall|u: int| 0 <= u < t ==> records_trigger(#[trigger] out@[base + 1 + u], tall[u], now),
            decreases trest.len(),
        {
            assert(t < tall.len());
            let tm = trest.remove(0);
            assert(tm == tall[t as int]);
            let m = trigger_mutation_to_commitlog_mutation(tm, now);
            out.push(m);
            t = t + 1;
            assert(trest@ =~= tall.subrange(t as int, tall.len() as int));
        }
        proof {
            let counts = trigger_counts(all.subrange(0, k + 1));
            assert(counts.drop_last() =~= trigger_counts(all.subrange(0, k as int)));
            assert(counts.last() == tall.len());
            let next = batch_slots(counts);
            assert(next == prefix + seq![(k as int, -1int)] + Seq::new(tall.len(), |u: int| (k as int, u)));
            assert forall|j: int| 0 <= j < out@.len() implies fills_slot(#[trigger] out@[j], next[j], all, now) by {
                if j < base {
                    assert(next[j] == prefix[j]);
                } else if j == base {
                    assert(next[j] == (k as int, -1int));
                } else {
                    let u = j - base - 1;
                    assert(next[j] == (k as int, u));
                    assert(out@[base + 1 + u] == out@[j]);
                }
            }
        }
        k = k + 1;
        assert(rest@ =~= all.subrange(k as int, all.len() as int));
    }
    assert(all.subrange(0, all.len() as int) =~= all);
    out
}

} // verus!

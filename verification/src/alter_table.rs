//! What `ALTER TABLE` does to the columns of a table: adding, dropping and
//! retyping columns, and setting their comments, constraints and masks.
use vstd::prelude::*;
use crate::clock::current_timestamp_micros;
use crate::constraints::ColumnConstraint;
use crate::ddl::{ClusteringOrder, ColumnKind};
use crate::error::ExecutorError;
use crate::text::{push_str, str_eq};
use crate::types::CqlType;

verus! {

broadcast use vstd::seq_lib::group_seq_properties;

/// A column of a table's schema.
#[derive(Debug)]
pub struct SchemaColumn {
    pub name: String,
    pub kind: ColumnKind,
    pub position: i32,
    pub column_type: CqlType,
    /// The sort order of a clustering column; `Unordered` for the others.
    pub clustering_order: ClusteringOrder,
    pub comment: String,
    pub constraints: Vec<ColumnConstraint>,
    /// The masking function and its arguments as stored text.
    pub masked_with: Option<(String, Vec<String>)>,
}

/// A column dropped from a table: its name, its type's CQL name, when it
/// was dropped (microseconds since the epoch) and its kind.
#[derive(Debug)]
pub struct DroppedColumn {
    pub name: String,
    pub column_type_name: String,
    pub dropped_time: i64,
    pub kind: ColumnKind,
}

/// The columns of a table and those dropped from it.
#[derive(Debug)]
pub struct TableSchema {
    pub columns: Vec<SchemaColumn>,
    pub dropped: Vec<DroppedColumn>,
}

/// A change `ALTER TABLE` makes to the columns, with what is resolved
/// outside the schema given: the type a written type resolves to (`None`
/// when it names no known type) and the stored arguments a mask definition
/// validates to (or the error its validation gave).
#[derive(Debug)]
pub enum AlterColumnOp {
    AddColumn {
        name: String,
        column_type: Option<CqlType>,
        is_static: bool,
        constraints: Vec<ColumnConstraint>,
        mask: Option<(String, Result<Vec<String>, ExecutorError>)>,
    },
    /// Drops a column; the second field is the CQL name of the dropped column's type.
    DropColumn(String, String),
    AlterColumn(String, Option<CqlType>),
    CommentColumn(String, String),
    AlterConstraints(String, Vec<ColumnConstraint>),
    DropConstraints(String),
    MaskColumn(String, String, Result<Vec<String>, ExecutorError>),
    DropMask(String),
}

/// Whether a column belongs to the primary key.
pub open spec fn primary_key_kind(kind: ColumnKind) -> bool {
    kind is PartitionKey || kind is Clustering
}

/// The position of the first column named `name`.
pub open spec fn column_index(cols: Seq<SchemaColumn>, name: Seq<char>) -> Option<int>
    decreases cols.len(),
{
    if cols.len() == 0 {
        None
    } else {
        match column_index(cols.drop_last(), name) {
            Some(i) => Some(i),
            None => if cols.last().name@ == name { Some(cols.len() - 1) } else { None },
        }
    }
}

proof fn lemma_column_index_prefix(cols: Seq<SchemaColumn>, name: Seq<char>, n: int)
    requires
        0 <= n <= cols.len(),
        column_index(cols.subrange(0, n), name) is Some,
    ensures
        column_index(cols, name) == column_index(cols.subrange(0, n), name),
    decreases cols.len() - n,
{
    if n < cols.len() {
        assert(cols.subrange(0, n + 1).drop_last() =~= cols.subrange(0, n));
        lemma_column_index_prefix(cols, name, n + 1);
    } else {
        assert(cols.subrange(0, n) =~= cols);
    }
}

/// A found position lies inside the columns and names a column of that name.
pub proof fn lemma_column_index_found(cols: Seq<SchemaColumn>, name: Seq<char>)
    ensures
        column_index(cols, name) matches Some(i) ==> 0 <= i < cols.len() && cols[i].name@ == name,
    decreases cols.len(),
{
    if cols.len() > 0 {
        lemma_column_index_found(cols.drop_last(), name);
    }
}

fn find_column(cols: &Vec<SchemaColumn>, name: &str) -> (r: Option<usize>)
    ensures
        match r {
            Some(i) => i < cols@.len() && column_index(cols@, name@) == Some(i as int),
            None => column_index(cols@, name@) is None,
        },
{
    let mut i: usize = 0;
    while i < cols.len()
        invariant
            i <= cols@.len(),
            column_index(cols@.subrange(0, i as int), name@) is None,
        decreases cols.len() - i,
    {
        assert(cols@.subrange(0, i + 1).drop_last() =~= cols@.subrange(0, i as int));
        if str_eq(cols[i].name.as_str(), name) {
            proof { lemma_column_index_prefix(cols@, name@, i as int + 1); }
            return Some(i);
        }
        i = i + 1;
    }
    assert(cols@.subrange(0, cols@.len() as int) =~= cols@);
    None
}

/// The greatest position among the columns of a kind.
pub open spec fn max_position(cols: Seq<SchemaColumn>, kind: ColumnKind) -> Option<int>
    decreases cols.len(),
{
    if cols.len() == 0 {
        None
    } else {
        let rest = max_position(cols.drop_last(), kind);
        if cols.last().kind == kind {
            match rest {
                Some(p) => Some(if cols.last().position > p { cols.last().position as int } else { p }),
                None => Some(cols.last().position as int),
            }
        } else {
            rest
        }
    }
}

/// The position a new column of a kind gets: one past the greatest, or 0.
pub open spec fn next_position(cols: Seq<SchemaColumn>, kind: ColumnKind) -> int {
    match max_position(cols, kind) {
        Some(p) => p + 1,
        None => 0,
    }
}

proof fn lemma_max_position_bounds(cols: Seq<SchemaColumn>, kind: ColumnKind)
    ensures
        max_position(cols, kind) matches Some(p) ==> i32::MIN <= p <= i32::MAX,
    decreases cols.len(),
{
    if cols.len() > 0 {
        lemma_max_position_bounds(cols.drop_last(), kind);
    }
}

fn next_position_exec(cols: &Vec<SchemaColumn>, kind: ColumnKind) -> (r: i32)
    requires
        next_position(cols@, kind) <= i32::MAX,
    ensures
        r == next_position(cols@, kind),
{
    let mut best: Option<i32> = None;
    let mut i: usize = 0;
    while i < cols.len()
        invariant
            i <= cols@.len(),
            max_position(cols@.subrange(0, i as int), kind) == match best { Some(p) => Some(p as int), None => None::<int> },
        decreases cols.len() - i,
    {
        assert(cols@.subrange(0, i + 1).drop_last() =~= cols@.subrange(0, i as int));
        if cols[i].kind == kind {
            best = match best {
                Some(p) => Some(if cols[i].position > p { cols[i].position } else { p }),
                None => Some(cols[i].position),
            };
        }
        i = i + 1;
    }
    assert(cols@.subrange(0, cols@.len() as int) =~= cols@);
    match best {
        Some(p) => p + 1,
        None => 0,
    }
}

/// The message of an operation on a column the table does not have.
pub open spec fn missing_column_message(column: Seq<char>, keyspace: Seq<char>, table: Seq<char>) -> Seq<char> {
    "Column '"@ + column + "' does not exist in "@ + keyspace + "."@ + table
}

fn message3(a: &str, b: &str, c: &str) -> (r: ExecutorError)
    ensures
        r matches ExecutorError::InvalidQuery(m) && m@ == a@ + b@ + c@,
{
    let mut m = String::new();
    push_str(&mut m, a);
    push_str(&mut m, b);
    push_str(&mut m, c);
    ExecutorError::InvalidQuery(m)
}

fn column_message(prefix: &str, column: &str, middle: &str, keyspace: &str, table: &str) -> (r: ExecutorError)
    ensures
        r matches ExecutorError::InvalidQuery(m) && m@ == prefix@ + column@ + middle@ + keyspace@ + "."@ + table@,
{
    let mut m = String::new();
    push_str(&mut m, prefix);
    push_str(&mut m, column);
    push_str(&mut m, middle);
    push_str(&mut m, keyspace);
    push_str(&mut m, ".");
    push_str(&mut m, table);
    ExecutorError::InvalidQuery(m)
}

/// Whether `new` is `old` with the column at `i` replaced by `c`.
pub open spec fn replaced_at(old: Seq<SchemaColumn>, new: Seq<SchemaColumn>, i: int, c: SchemaColumn) -> bool {
    new == old.update(i, c)
}

/// Applies one `ALTER TABLE` change to the columns of the table
/// `keyspace.table`. A refused change leaves the table as it was.
///
/// - `AddColumn` refuses a name already in use and an unknown type, then a
///   mask whose validation failed; the new column is static or regular, at
///   the next position of its kind, with no comment.
/// - `DropColumn` refuses a missing or primary-key column, removes every
///   column of that name and records the drop.
/// - `AlterColumn` refuses a missing or primary-key column and an unknown
///   type, then sets the type.
/// - The others refuse a missing column, then set or clear the comment,
///   constraints or mask of the first column of that name.
#[verifier::rlimit(60)]
pub fn alter_table_columns(table: &mut TableSchema, keyspace: &str, table_name: &str, op: AlterColumnOp)
    -> (r: Result<(), ExecutorError>)
    requires
        op matches AlterColumnOp::AddColumn { is_static, .. } ==> next_position(old(table).columns@,
            if is_static { ColumnKind::Static } else { ColumnKind::Regular }) <= i32::MAX,
    ensures
        r is Err ==> *final(table) == *old(table),
        match op {
            AlterColumnOp::AddColumn { name, column_type, is_static, constraints, mask } => {
                let kind = if is_static { ColumnKind::Static } else { ColumnKind::Regular };
                if column_index(old(table).columns@, name@) is Some {
                    r matches Err(ExecutorError::InvalidQuery(m))
                        && m@ == "Column '"@ + name@ + "' already exists in "@ + keyspace@ + "."@ + table_name@
                } else if column_type is None {
                    r matches Err(ExecutorError::InvalidQuery(m)) && m@ == "Unknown type for column '"@ + name@ + "'"@
                } else {
                    match mask {
                        Some((_, Err(e))) => r == Err::<(), ExecutorError>(e),
                        _ => r is Ok && final(table).dropped == old(table).dropped
                            && final(table).columns@.len() == old(table).columns@.len() + 1
                            && final(table).columns@.subrange(0, old(table).columns@.len() as int) == old(table).columns@
                            && ({
                                let c = final(table).columns@.last();
                                &&& c.name == name
                                &&& c.kind == kind
                                &&& c.position == next_position(old(table).columns@, kind)
                                &&& Some(c.column_type) == column_type
                                &&& c.clustering_order == ClusteringOrder::Unordered
                                &&& c.comment@ == Seq::<char>::empty()
                                &&& c.constraints == constraints
                                &&& c.masked_with == match mask {
                                    Some((f, Ok(args))) => Some((f, args)),
                                    _ => None,
                                }
                            }),
                    }
                }
            },
            AlterColumnOp::DropColumn(name, dropped_type) => match column_index(old(table).columns@, name@) {
                None => r matches Err(ExecutorError::InvalidQuery(m)) && m@ == missing_column_message(name@, keyspace@, table_name@),
                Some(i) => if primary_key_kind(old(table).columns@[i].kind) {
                    r matches Err(ExecutorError::InvalidQuery(m)) && m@ == "Cannot drop primary key column '"@ + name@ + "'"@
                } else {
                    r is Ok
                    && final(table).columns@ == old(table).columns@.filter(|c: SchemaColumn| c.name@ != name@)
                    && final(table).dropped@.len() == old(table).dropped@.len() + 1
                    && final(table).dropped@.drop_last() == old(table).dropped@
                    && final(table).dropped@.last().name == name
                    && final(table).dropped@.last().column_type_name == dropped_type
                    && final(table).dropped@.last().kind == old(table).columns@[i].kind
                },
            },
            AlterColumnOp::AlterColumn(name, column_type) => match column_index(old(table).columns@, name@) {
                None => r matches Err(ExecutorError::InvalidQuery(m)) && m@ == missing_column_message(name@, keyspace@, table_name@),
                Some(i) => if primary_key_kind(old(table).columns@[i].kind) {
                    r matches Err(ExecutorError::InvalidQuery(m)) && m@ == "Cannot alter primary key column '"@ + name@ + "'"@
                } else {
                    match column_type {
                        None => r matches Err(ExecutorError::InvalidQuery(m)) && m@ == "Unknown type for column '"@ + name@ + "'"@,
                        Some(t) => r is Ok && final(table).dropped == old(table).dropped
                            && replaced_at(old(table).columns@, final(table).columns@, i,
                                SchemaColumn { column_type: t, ..old(table).columns@[i] }),
                    }
                },
            },
            AlterColumnOp::CommentColumn(name, comment) => match column_index(old(table).columns@, name@) {
                None => r matches Err(ExecutorError::InvalidQuery(m)) && m@ == missing_column_message(name@, keyspace@, table_name@),
                Some(i) => r is Ok && final(table).dropped == old(table).dropped
                    && replaced_at(old(table).columns@, final(table).columns@, i, SchemaColumn { comment, ..old(table).columns@[i] }),
            },
            AlterColumnOp::AlterConstraints(name, constraints) => match column_index(old(table).columns@, name@) {
                None => r matches Err(ExecutorError::InvalidQuery(m)) && m@ == missing_column_message(name@, keyspace@, table_name@),
                Some(i) => r is Ok && final(table).dropped == old(table).dropped
                    && replaced_at(old(table).columns@, final(table).columns@, i, SchemaColumn { constraints, ..old(table).columns@[i] }),
            },
            AlterColumnOp::DropConstraints(name) => match column_index(old(table).columns@, name@) {
                None => r matches Err(ExecutorError::InvalidQuery(m)) && m@ == missing_column_message(name@, keyspace@, table_name@),
                Some(i) => r is Ok && final(table).dropped == old(table).dropped
                    && final(table).columns@.len() == old(table).columns@.len()
                    && final(table).columns@[i].constraints@.len() == 0
                    && replaced_at(old(table).columns@, final(table).columns@, i,
                        SchemaColumn { constraints: final(table).columns@[i].constraints, ..old(table).columns@[i] }),
            },
            AlterColumnOp::MaskColumn(name, function, args) => match column_index(old(table).columns@, name@) {
                None => r matches Err(ExecutorError::InvalidQuery(m)) && m@ == missing_column_message(name@, keyspace@, table_name@),
                Some(i) => match args {
                    Err(e) => r == Err::<(), ExecutorError>(e),
                    Ok(a) => r is Ok && final(table).dropped == old(table).dropped
                        && replaced_at(old(table).columns@, final(table).columns@, i,
                            SchemaColumn { masked_with: Some((function, a)), ..old(table).columns@[i] }),
                },
            },
            AlterColumnOp::DropMask(name) => match column_index(old(table).columns@, name@) {
                None => r matches Err(ExecutorError::InvalidQuery(m)) && m@ == missing_column_message(name@, keyspace@, table_name@),
                Some(i) => r is Ok && final(table).dropped == old(table).dropped
                    && replaced_at(old(table).columns@, final(table).columns@, i, SchemaColumn { masked_with: None, ..old(table).columns@[i] }),
            },
        },
{
    match op {
        AlterColumnOp::AddColumn { name, column_type, is_static, constraints, mask } => {
            if find_column(&table.columns, name.as_str()).is_some() {
                return Err(column_message("Column '", name.as_str(), "' already exists in ", keyspace, table_name));
            }
            let column_type = match column_type {
                Some(t) => t,
                None => return Err(message3("Unknown type for column '", name.as_str(), "'")),
            };
            let kind = if is_static { ColumnKind::Static } else { ColumnKind::Regular };
            let position = next_position_exec(&table.columns, kind);
            let masked_with = match mask {
                Some((f, Ok(args))) => Some((f, args)),
                Some((_, Err(e))) => return Err(e),
                None => None,
            };
            let column = SchemaColumn {
                name,
                kind,
                position,
                column_type,
                clustering_order: ClusteringOrder::Unordered,
                comment: String::new(),
                constraints,
                masked_with,
            };
            let ghost before = table.columns@;
            table.columns.push(column);
            assert(table.columns@.subrange(0, before.len() as int) =~= before);
            Ok(())
        },
        AlterColumnOp::DropColumn(name, dropped_type) => {
            let i = match find_column(&table.columns, name.as_str()) {
                Some(i) => i,
                None => return Err(column_message("Column '", name.as_str(), "' does not exist in ", keyspace, table_name)),
            };
            if table.columns[i].kind == ColumnKind::PartitionKey || table.columns[i].kind == ColumnKind::Clustering {
                return Err(message3("Cannot drop primary key column '", name.as_str(), "'"));
            }
            let kind = table.columns[i].kind;
            let ghost old_cols = table.columns@;
            let mut kept: Vec<SchemaColumn> = Vec::new();
            let mut rest: Vec<SchemaColumn> = Vec::new();
            std::mem::swap(&mut rest, &mut table.columns);
            let ghost mut k: int = 0;
            while rest.len() > 0
                invariant
                    0 <= k <= old_cols.len(),
                    rest@ == old_cols.subrange(k, old_cols.len() as int),
                    kept@ == old_cols.subrange(0, k).filter(|c: SchemaColumn| c.name@ != name@),
                decreases rest.len(),
            {
                let c = rest.remove(0);
                proof {
                    reveal(Seq::filter);
                    assert(old_cols.subrange(0, k + 1).drop_last() =~= old_cols.subrange(0, k));
                    assert(c == old_cols[k]);
                }
                if !str_eq(c.name.as_str(), name.as_str()) {
                    kept.push(c);
                }
                proof {
                    k = k + 1;
                    assert(rest@ =~= old_cols.subrange(k, old_cols.len() as int));
                }
            }
            assert(old_cols.subrange(0, old_cols.len() as int) =~= old_cols);
            table.columns = kept;
            let time = current_timestamp_micros();
            table.dropped.push(DroppedColumn { name, column_type_name: dropped_type, dropped_time: time, kind });
            Ok(())
        },
        AlterColumnOp::AlterColumn(name, column_type) => {
            let i = match find_column(&table.columns, name.as_str()) {
                Some(i) => i,
                None => return Err(column_message("Column '", name.as_str(), "' does not exist in ", keyspace, table_name)),
            };
            if table.columns[i].kind == ColumnKind::PartitionKey || table.columns[i].kind == ColumnKind::Clustering {
                return Err(message3("Cannot alter primary key column '", name.as_str(), "'"));
            }
            match column_type {
                Some(t) => {
                    let ghost old_cols = table.columns@;
                    let mut c = table.columns.remove(i);
                    c.column_type = t;
                    let ghost updated = c;
                    table.columns.insert(i, c);
                    assert(table.columns@ =~= old_cols.update(i as int, updated));
                    Ok(())
                },
                None => Err(message3("Unknown type for column '", name.as_str(), "'")),
            }
        },
        AlterColumnOp::CommentColumn(name, comment) => {
            let i = match find_column(&table.columns, name.as_str()) {
                Some(i) => i,
                None => return Err(column_message("Column '", name.as_str(), "' does not exist in ", keyspace, table_name)),
            };
            let ghost old_cols = table.columns@;
            let mut c = table.columns.remove(i);
            c.comment = comment;
            let ghost updated = c;
            table.columns.insert(i, c);
            assert(table.columns@ =~= old_cols.update(i as int, updated));
            Ok(())
        },
        AlterColumnOp::AlterConstraints(name, constraints) => {
            let i = match find_column(&table.columns, name.as_str()) {
                Some(i) => i,
                None => return Err(column_message("Column '", name.as_str(), "' does not exist in ", keyspace, table_name)),
            };
            let ghost old_cols = table.columns@;
            let mut c = table.columns.remove(i);
            c.constraints = constraints;
            let ghost updated = c;
            table.columns.insert(i, c);
            assert(table.columns@ =~= old_cols.update(i as int, updated));
            Ok(())
        },
        AlterColumnOp::DropConstraints(name) => {
            let i = match find_column(&table.columns, name.as_str()) {
                Some(i) => i,
                None => return Err(column_message("Column '", name.as_str(), "' does not exist in ", keyspace, table_name)),
            };
            let ghost old_cols = table.columns@;
            let mut c = table.columns.remove(i);
            c.constraints = Vec::new();
            let ghost updated = c;
            table.columns.insert(i, c);
            assert(table.columns@ =~= old_cols.update(i as int, updated));
            Ok(())
        },
        AlterColumnOp::MaskColumn(name, function, args) => {
            let i = match find_column(&table.columns, name.as_str()) {
                Some(i) => i,
                None => return Err(column_message("Column '", name.as_str(), "' does not exist in ", keyspace, table_name)),
            };
            match args {
                Ok(a) => {
                    let ghost old_cols = table.columns@;
                    let mut c = table.columns.remove(i);
                    c.masked_with = Some((function, a));
                    let ghost updated = c;
                    table.columns.insert(i, c);
                    assert(table.columns@ =~= old_cols.update(i as int, updated));
                    Ok(())
                },
                Err(e) => Err(e),
            }
        },
        AlterColumnOp::DropMask(name) => {
            let i = match find_column(&table.columns, name.as_str()) {
                Some(i) => i,
                None => return Err(column_message("Column '", name.as_str(), "' does not exist in ", keyspace, table_name)),
            };
            let ghost old_cols = table.columns@;
            let mut c = table.columns.remove(i);
            c.masked_with = None;
            let ghost updated = c;
            table.columns.insert(i, c);
            assert(table.columns@ =~= old_cols.update(i as int, updated));
            Ok(())
        },
    }
}

// ─── laws ───────────────────────────────────────────────────────────────

/// A column added under a new name is found under that name, at the end.
pub proof fn lemma_added_column_is_found(old: Seq<SchemaColumn>, new: Seq<SchemaColumn>, name: Seq<char>)
    requires
        column_index(old, name) is None,
        new.len() == old.len() + 1,
        new.subrange(0, old.len() as int) == old,
        new.last().name@ == name,
    ensures
        column_index(new, name) == Some(old.len() as int),
{
    assert(new.drop_last() =~= old);
}

/// After a column is dropped, no column of that name is left.
pub proof fn lemma_dropped_column_is_gone(cols: Seq<SchemaColumn>, name: Seq<char>)
    ensures
        column_index(cols.filter(|c: SchemaColumn| c.name@ != name), name) is None,
    decreases cols.len(),
{
    reveal(Seq::filter);
    if cols.len() > 0 {
        lemma_dropped_column_is_gone(cols.drop_last(), name);
        let f = cols.drop_last().filter(|c: SchemaColumn| c.name@ != name);
        if cols.last().name@ != name {
            assert(cols.filter(|c: SchemaColumn| c.name@ != name) == f.push(cols.last()));
            assert(f.push(cols.last()).drop_last() =~= f);
        } else {
            assert(cols.filter(|c: SchemaColumn| c.name@ != name) == f);
        }
    }
}

} // verus!

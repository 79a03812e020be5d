//! The columns `CREATE TABLE` gives a new table: each column's kind,
//! position and clustering order follow from the primary key it declares.
use vstd::prelude::*;
use crate::alter_table::SchemaColumn;
use crate::constraints::ColumnConstraint;
use crate::ddl::{ClusteringOrder, ColumnKind};
use crate::error::ExecutorError;
use crate::schema::{first_match, lemma_first_match, lemma_first_match_prefix};
use crate::text::str_eq;
use crate::types::CqlType;

verus! {

broadcast use vstd::seq_lib::group_seq_properties;

/// A column as `CREATE TABLE` declares it. A mask definition comes with
/// what validating it gave: the stored arguments, or the error.
#[derive(Debug)]
pub struct ColumnDef {
    pub name: String,
    pub cql_type: CqlType,
    pub is_static: bool,
    pub constraints: Vec<ColumnConstraint>,
    pub mask: Option<(String, Result<Vec<String>, ExecutorError>)>,
}

pub open spec fn name_is(name: Seq<char>) -> spec_fn(String) -> bool {
    |s: String| s@ == name
}

pub open spec fn order_for(name: Seq<char>) -> spec_fn((String, ClusteringOrder)) -> bool {
    |e: (String, ClusteringOrder)| e.0@ == name
}

/// A column whose mask definition was refused.
pub open spec fn refused_mask() -> spec_fn(ColumnDef) -> bool {
    |d: ColumnDef| d.mask matches Some((_, Err(_)))
}

/// Partition key columns first, then clustering columns, then static and regular ones.
pub open spec fn column_kind_of(name: Seq<char>, is_static: bool, partition_key: Seq<String>, clustering_key: Seq<String>) -> ColumnKind {
    if first_match(partition_key, name_is(name)) is Some {
        ColumnKind::PartitionKey
    } else if first_match(clustering_key, name_is(name)) is Some {
        ColumnKind::Clustering
    } else if is_static {
        ColumnKind::Static
    } else {
        ColumnKind::Regular
    }
}

/// A key column's place in its key; any other column's place among all columns.
pub open spec fn column_position_of(name: Seq<char>, is_static: bool, index: int, partition_key: Seq<String>, clustering_key: Seq<String>) -> int {
    match column_kind_of(name, is_static, partition_key, clustering_key) {
        ColumnKind::PartitionKey => first_match(partition_key, name_is(name))->0,
        ColumnKind::Clustering => first_match(clustering_key, name_is(name))->0,
        _ => index,
    }
}

/// A clustering column's declared order, ascending where none is declared.
pub open spec fn clustering_order_of(name: Seq<char>, kind: ColumnKind, orders: Seq<(String, ClusteringOrder)>) -> ClusteringOrder {
    if kind == ColumnKind::Clustering {
        match first_match(orders, order_for(name)) {
            Some(j) => orders[j].1,
            None => ClusteringOrder::Asc,
        }
    } else {
        ClusteringOrder::Unordered
    }
}

/// `column` is the one that the definition at `index` gives.
pub open spec fn built_column(
    column: SchemaColumn,
    def: ColumnDef,
    index: int,
    partition_key: Seq<String>,
    clustering_key: Seq<String>,
    orders: Seq<(String, ClusteringOrder)>,
) -> bool {
    let kind = column_kind_of(def.name@, def.is_static, partition_key, clustering_key);
    &&& column.name == def.name
    &&& column.kind == kind
    &&& column.position == column_position_of(def.name@, def.is_static, index, partition_key, clustering_key)
    &&& column.column_type == def.cql_type
    &&& column.clustering_order == clustering_order_of(def.name@, kind, orders)
    &&& column.comment@ == Seq::<char>::empty()
    &&& column.constraints == def.constraints
    &&& column.masked_with == match def.mask {
        Some((f, Ok(args))) => Some((f, args)),
        _ => None,
    }
}

fn position_of(names: &Vec<String>, name: &str) -> (r: Option<usize>)
    ensures
        match r {
            Some(i) => first_match(names@, name_is(name@)) == Some(i as int),
            None => first_match(names@, name_is(name@)) is None,
        },
{
    let mut i: usize = 0;
    while i < names.len()
        invariant
            i <= names@.len(),
            first_match(names@.subrange(0, i as int), name_is(name@)) is None,
        decreases names.len() - i,
    {
        assert(names@.subrange(0, i + 1).drop_last() =~= names@.subrange(0, i as int));
        if str_eq(names[i].as_str(), name) {
            proof { lemma_first_match_prefix(names@, name_is(name@), i + 1); }
            return Some(i);
        }
        i = i + 1;
    }
    assert(names@.subrange(0, names@.len() as int) =~= names@);
    None
}

fn declared_order(orders: &Vec<(String, ClusteringOrder)>, name: &str) -> (r: ClusteringOrder)
    ensures
        r == match first_match(orders@, order_for(name@)) {
            Some(j) => orders@[j].1,
            None => ClusteringOrder::Asc,
        },
{
    let mut i: usize = 0;
    while i < orders.len()
        invariant
            i <= orders@.len(),
            first_match(orders@.subrange(0, i as int), order_for(name@)) is None,
        decreases orders.len() - i,
    {
        assert(orders@.subrange(0, i + 1).drop_last() =~= orders@.subrange(0, i as int));
        if str_eq(orders[i].0.as_str(), name) {
            proof { lemma_first_match_prefix(orders@, order_for(name@), i + 1); }
            return orders[i].1;
        }
        i = i + 1;
    }
    assert(orders@.subrange(0, orders@.len() as int) =~= orders@);
    ClusteringOrder::Asc
}

/// The columns of a new table, in the order declared; the first refused
/// mask definition refuses the table.
pub fn build_table_columns(
    columns: Vec<ColumnDef>,
    partition_key: &Vec<String>,
    clustering_key: &Vec<String>,
    clustering_order: &Vec<(String, ClusteringOrder)>,
) -> (r: Result<Vec<SchemaColumn>, ExecutorError>)
    requires
        columns@.len() <= i32::MAX,
        partition_key@.len() <= i32::MAX,
        clustering_key@.len() <= i32::MAX,
    ensures
        match first_match(columns@, refused_mask()) {
            Some(i) => r matches Err(e) && e == (columns@[i].mask->0).1->Err_0,
            None => r matches Ok(built) && built@.len() == columns@.len() && forall|i: int| 0 <= i < columns@.len()
                ==> built_column(#[trigger] built@[i], columns@[i], i, partition_key@, clustering_key@, clustering_order@),
        },
{
    let ghost all = columns@;
    let mut built: Vec<SchemaColumn> = Vec::new();
    let mut rest = columns;
    let mut k: usize = 0;
    assert(all.len() == rest.len());
    while rest.len() > 0
        invariant
            k <= all.len() <= i32::MAX,
            all == columns@,
            partition_key@.len() <= i32::MAX,
            clustering_key@.len() <= i32::MAX,
            rest@ == all.subrange(k as int, all.len() as int),
            first_match(all.subrange(0, k as int), refused_mask()) is None,
            built@.len() == k,
            forall|i: int| 0 <= i < k ==> built_column(#[trigger] built@[i], all[i], i, partition_key@, clustering_key@, clustering_order@),
        decreases rest.len(),
    {
        assert(k < all.len());
        let def = rest.remove(0);
        assert(def == all[k as int]);
        assert(all.subrange(0, k + 1).drop_last() =~= all.subrange(0, k as int));
        let ColumnDef { name, cql_type, is_static, constraints, mask } = def;
        let masked_with = match mask {
            Some((f, Ok(args))) => Some((f, args)),
            Some((_, Err(e))) => {
                proof {
                    assert(all.subrange(0, k + 1).last() == all[k as int]);
                    assert(first_match(all.subrange(0, k + 1), refused_mask()) == Some(k as int));
                    lemma_first_match_prefix(all, refused_mask(), k as int + 1);
                    assert(mask == all[k as int].mask);
                    assert(e == (all[k as int].mask->0).1->Err_0);
                    assert(first_match(all, refused_mask()) == Some(k as int));
                }
                return Err(e);
            },
            None => None,
        };
        let pk = position_of(partition_key, name.as_str());
        let ck = position_of(clustering_key, name.as_str());
        proof {
            lemma_first_match(partition_key@, name_is(name@));
            lemma_first_match(clustering_key@, name_is(name@));
        }
        let (kind, position) = match pk {
            Some(p) => (ColumnKind::PartitionKey, p as i32),
            None => match ck {
                Some(p) => (ColumnKind::Clustering, p as i32),
                None => (if is_static { ColumnKind::Static } else { ColumnKind::Regular }, k as i32),
            },
        };
        let order = match kind {
            ColumnKind::Clustering => declared_order(clustering_order, name.as_str()),
            _ => ClusteringOrder::Unordered,
        };
        let column = SchemaColumn {
            name,
            kind,
            position,
            column_type: cql_type,
            clustering_order: order,
            comment: String::new(),
            constraints,
            masked_with,
        };
        built.push(column);
        k = k + 1;
        assert(rest@ =~= all.subrange(k as int, all.len() as int));
    }
    assert(all.subrange(0, all.len() as int) =~= all);
    Ok(built)
}

} // verus!

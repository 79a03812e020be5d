//! Whether a row satisfies the relations of a `WHERE` clause that are
//! evaluated by filtering.
use vstd::prelude::*;
use crate::cells::{opt_row, raw_value, raw_column_value, Row};
use crate::chars::{eq_ignore_case, eq_ignore_case_exec, starts_with, starts_with_exec};
use crate::relations::{relation_holds, relation_matches, token_relation_holds, token_relation_matches, RelationOp};
use crate::text::chars_of;
use crate::tuples::{tuple_relation_matches, tuple_relation_spec};
use crate::types::{ColumnMetadata, CqlType};
use crate::selectors::{column_type_of, column_type_exec};

verus! {

/// The right-hand side of a relation, converted for what it is compared with.
#[derive(Debug)]
pub enum RelationOperand {
    /// The encoded values a single-column relation compares with (`None`
    /// for a value with no encoding).
    Values(Vec<Option<Vec<u8>>>),
    /// The tokens a `token(...)` relation compares with.
    Tokens(Vec<i64>),
    /// The clustering bytes a multi-column relation compares with.
    Tuples(Vec<Vec<u8>>),
}

/// A relation of a `WHERE` clause: the column (or `token`, or `(a, b)`),
/// the operator and the converted right-hand side.
#[derive(Debug)]
pub struct FilterRelation {
    pub column: String,
    pub op: RelationOp,
    pub operand: RelationOperand,
}

/// Whether a relation is on the partition token.
pub open spec fn token_relation(column: Seq<char>) -> bool {
    eq_ignore_case(column, "token"@)
}

/// Whether a relation is on a tuple of clustering columns.
pub open spec fn tuple_relation(column: Seq<char>) -> bool {
    starts_with(column, seq!['('])
}

/// Whether a relation's right-hand side was converted for the kind of relation it is.
pub open spec fn operand_fits(rel: FilterRelation) -> bool {
    if token_relation(rel.column@) {
        rel.operand is Tokens
    } else if tuple_relation(rel.column@) {
        rel.operand is Tuples
    } else {
        rel.operand is Values
    }
}

/// Whether a row satisfies one relation: a token relation compares the
/// partition's token, a tuple relation the clustering columns it names,
/// any other relation the column's value as `raw_value` reads it, in the
/// order of the column's type.
pub open spec fn row_satisfies(rel: FilterRelation, cols: Seq<ColumnMetadata>, pk_names: Seq<String>,
    ck_names: Seq<String>, static_col_names: Seq<String>, partition_key: Seq<u8>, token: i64, row: Row,
    static_row: Option<Row>) -> bool {
    if token_relation(rel.column@) {
        match rel.operand {
            RelationOperand::Tokens(t) => token_relation_holds(rel.op, token, t@),
            _ => false,
        }
    } else if tuple_relation(rel.column@) {
        match rel.operand {
            RelationOperand::Tuples(e) => tuple_relation_spec(cols, rel.column@, rel.op, row.clustering_key@, e.deep_view()),
            _ => false,
        }
    } else {
        match rel.operand {
            RelationOperand::Values(e) => relation_holds(rel.op, column_type_of(cols, rel.column@),
                raw_value(pk_names, ck_names, static_col_names, rel.column@, partition_key, row, static_row), e.deep_view()),
            _ => false,
        }
    }
}

fn relation_satisfied(
    rel: &FilterRelation,
    cols: &[ColumnMetadata],
    pk_names: &[String],
    ck_names: &[String],
    static_col_names: &[String],
    partition_key: &[u8],
    token: i64,
    row: &Row,
    static_row: Option<&Row>,
) -> (r: bool)
    ensures
        r == row_satisfies(*rel, cols@, pk_names@, ck_names@, static_col_names@, partition_key@, token, *row,
            opt_row(static_row)),
{
    let name = chars_of(rel.column.as_str());
    let tok = chars_of("token");
    proof {
        reveal_strlit("token");
    }
    if eq_ignore_case_exec(&name, &tok) {
        return match &rel.operand {
            RelationOperand::Tokens(t) => token_relation_matches(rel.op, token, t.as_slice()),
            _ => false,
        };
    }
    let mut paren: Vec<char> = Vec::new();
    paren.push('(');
    assert(paren@ =~= seq!['(']);
    if starts_with_exec(&name, &paren) {
        return match &rel.operand {
            RelationOperand::Tuples(e) => tuple_relation_matches(cols, rel.column.as_str(), rel.op, row.clustering_key.as_slice(), e.as_slice()),
            _ => false,
        };
    }
    match &rel.operand {
        RelationOperand::Values(e) => {
            let current = raw_column_value(pk_names, ck_names, static_col_names, rel.column.as_str(), partition_key, row, static_row);
            let column_type = column_type_exec(cols, rel.column.as_str());
            let t: Option<&CqlType> = match &column_type {
                Some(c) => Some(c),
                None => None,
            };
            match current {
                Some(c) => relation_matches(rel.op, t, Some(c.as_slice()), e.as_slice()),
                None => relation_matches(rel.op, t, None, e.as_slice()),
            }
        },
        _ => false,
    }
}

/// Whether a row of a partition (whose key is `partition_key` and whose
/// token is `token`) satisfies every relation.
pub fn row_matches_relations(
    relations: &[FilterRelation],
    cols: &[ColumnMetadata],
    pk_names: &[String],
    ck_names: &[String],
    static_col_names: &[String],
    partition_key: &[u8],
    token: i64,
    row: &Row,
    static_row: Option<&Row>,
) -> (r: bool)
    requires
        forall|i: int| 0 <= i < relations@.len() ==> operand_fits(#[trigger] relations@[i]),
    ensures
        r == forall|i: int| 0 <= i < relations@.len() ==> #[trigger] row_satisfies(relations@[i], cols@, pk_names@,
            ck_names@, static_col_names@, partition_key@, token, *row, opt_row(static_row)),
{
    let ghost sr = opt_row(static_row);
    let mut i: usize = 0;
    while i < relations.len()
        invariant
            i <= relations@.len(),
            sr == opt_row(static_row),
            forall|j: int| 0 <= j < i ==> #[trigger] row_satisfies(relations@[j], cols@, pk_names@, ck_names@,
                static_col_names@, partition_key@, token, *row, sr),
        decreases relations.len() - i,
    {
        if !relation_satisfied(&relations[i], cols, pk_names, ck_names, static_col_names, partition_key, token, row, static_row) {
            return false;
        }
        i = i + 1;
    }
    true
}

} // verus!

//! The schema catalog: keyspaces and the tables, types, materialized views,
//! triggers and indexes they hold, with the existence rules of the
//! statements that create, alter and drop them.
use vstd::prelude::*;
use crate::alter_table::TableSchema;
use crate::alter_type::{alter_user_type, alter_user_type_spec, AlterTypeOp};
use crate::ddl::{render_type_ddl, type_ddl, TypeDdl};
use crate::chars::{contains_exec, find};
use crate::entries::{entry_value, find_value, lemma_value_after_replace, remove_key, without_key};
use crate::error::ExecutorError;
use crate::options::TableParams;
use crate::selectors::Selector;
use crate::text::{chars_of, push_str, str_eq};

verus! {

broadcast use vstd::seq_lib::group_seq_properties;

/// How a keyspace is replicated and written.
#[derive(Debug)]
pub struct KeyspaceParams {
    pub durable_writes: bool,
    pub strategy_class: String,
    /// The replication options but for the strategy's class.
    pub replication: Vec<(String, String)>,
    pub comment: String,
}

#[derive(Debug)]
pub struct KeyspaceEntry {
    pub name: String,
    pub params: KeyspaceParams,
}

#[derive(Debug)]
pub struct TableEntry {
    pub keyspace: String,
    pub name: String,
    pub schema: TableSchema,
    pub params: TableParams,
}

#[derive(Debug)]
pub struct ViewEntry {
    pub keyspace: String,
    pub name: String,
    pub base_table: String,
    pub include_all_columns: bool,
    pub columns: Vec<String>,
    pub where_clause: String,
    pub partition_key: Vec<String>,
    pub clustering_key: Vec<String>,
    pub options: Vec<(String, String)>,
}

#[derive(Debug)]
pub struct TriggerEntry {
    pub keyspace: String,
    pub table: String,
    pub name: String,
    pub class: String,
}

#[derive(Debug, Clone, Copy, PartialEq, Eq)]
pub enum IndexKind {
    Keys,
    Custom,
}

/// How the storage engine serves an index.
#[derive(Debug, Clone, Copy, PartialEq, Eq)]
pub enum IndexType {
    Legacy,
    Sai,
}

#[derive(Debug)]
pub struct IndexEntry {
    pub keyspace: String,
    pub table: String,
    pub name: String,
    /// The indexed column.
    pub target: String,
    pub kind: IndexKind,
    pub index_type: IndexType,
    pub options: Vec<(String, String)>,
}

/// The schema: each object names the keyspace (and table) it belongs to.
#[derive(Debug)]
pub struct SchemaCatalog {
    pub keyspaces: Vec<KeyspaceEntry>,
    pub tables: Vec<TableEntry>,
    pub types: Vec<TypeDdl>,
    pub views: Vec<ViewEntry>,
    pub triggers: Vec<TriggerEntry>,
    pub indexes: Vec<IndexEntry>,
}

#[derive(Debug, Clone, Copy, PartialEq, Eq)]
pub enum ChangeType {
    Created,
    Updated,
    Dropped,
}

/// What a schema change event names; views and triggers are announced as
/// changes of a table.
#[derive(Debug, Clone, Copy, PartialEq, Eq)]
pub enum ChangeTarget {
    Keyspace,
    Table,
    Type,
    Index,
}

/// What a schema statement answers: nothing, or the change it made.
#[derive(Debug)]
pub enum SchemaOutcome {
    Void,
    Changed { change_type: ChangeType, target: ChangeTarget, keyspace: String, name: Option<String> },
}

// ─── first matches ──────────────────────────────────────────────────────

/// The position of the first element of `s` that meets `p`.
pub open spec fn first_match<T>(s: Seq<T>, p: spec_fn(T) -> bool) -> Option<int>
    decreases s.len(),
{
    if s.len() == 0 {
        None
    } else {
        match first_match(s.drop_last(), p) {
            Some(i) => Some(i),
            None => if p(s.last()) { Some(s.len() - 1) } else { None },
        }
    }
}

pub(crate) proof fn lemma_first_match_prefix<T>(s: Seq<T>, p: spec_fn(T) -> bool, n: int)
    requires
        0 <= n <= s.len(),
        first_match(s.subrange(0, n), p) is Some,
    ensures
        first_match(s, p) == first_match(s.subrange(0, n), p),
    decreases s.len() - n,
{
    if n < s.len() {
        assert(s.subrange(0, n + 1).drop_last() =~= s.subrange(0, n));
        lemma_first_match_prefix(s, p, n + 1);
    } else {
        assert(s.subrange(0, n) =~= s);
    }
}

/// A first match meets the predicate and nothing before it does; without
/// one, nothing does.
pub proof fn lemma_first_match<T>(s: Seq<T>, p: spec_fn(T) -> bool)
    ensures
        match first_match(s, p) {
            Some(i) => 0 <= i < s.len() && p(s[i]) && forall|j: int| 0 <= j < i ==> !p(#[trigger] s[j]),
            None => forall|j: int| 0 <= j < s.len() ==> !p(#[trigger] s[j]),
        },
    decreases s.len(),
{
    if s.len() > 0 {
        let d = s.drop_last();
        lemma_first_match(d, p);
        match first_match(d, p) {
            Some(i) => {
                assert forall|j: int| 0 <= j < i implies !p(#[trigger] s[j]) by {
                    assert(s[j] == d[j]);
                }
                assert(s[i] == d[i]);
            },
            None => {
                assert forall|j: int| 0 <= j < s.len() - 1 implies !p(#[trigger] s[j]) by {
                    assert(s[j] == d[j]);
                }
            },
        }
    }
}

/// No element of a sequence filtered by the negation of `p` meets `p`.
pub proof fn lemma_filtered_out<T>(s: Seq<T>, p: spec_fn(T) -> bool, keep: spec_fn(T) -> bool)
    requires
        forall|x: T| #[trigger] keep(x) == !p(x),
    ensures
        first_match(s.filter(keep), p) is None,
{
    let f = s.filter(keep);
    lemma_first_match(f, p);
    assert forall|j: int| 0 <= j < f.len() implies !p(#[trigger] f[j]) by {
        s.lemma_filter_pred(keep, j);
    }
    if first_match(f, p) is Some {
        let i = first_match(f, p)->0;
        assert(!p(f[i]));
    }
}

/// Every element a filter keeps meets its predicate.
proof fn lemma_filter_all<T>(s: Seq<T>, keep: spec_fn(T) -> bool)
    ensures
        forall|i: int| 0 <= i < s.filter(keep).len() ==> keep(#[trigger] s.filter(keep)[i]),
{
    assert forall|i: int| 0 <= i < s.filter(keep).len() implies keep(#[trigger] s.filter(keep)[i]) by {
        s.lemma_filter_pred(keep, i);
    }
}

pub(crate) fn retain_unmarked<T>(v: Vec<T>, marked: &Vec<bool>, Ghost(keep): Ghost<spec_fn(T) -> bool>) -> (r: Vec<T>)
    requires
        marked@.len() == v@.len(),
        forall|i: int| 0 <= i < v@.len() ==> marked@[i] == !keep(#[trigger] v@[i]),
    ensures
        r@ == v@.filter(keep),
{
    let ghost all = v@;
    assert(all.len() == v.len());
    let mut kept: Vec<T> = Vec::new();
    let mut rest = v;
    let mut k: usize = 0;
    while rest.len() > 0
        invariant
            k <= all.len() <= usize::MAX,
            marked@.len() == all.len(),
            forall|i: int| 0 <= i < all.len() ==> marked@[i] == !keep(#[trigger] all[i]),
            rest@ == all.subrange(k as int, all.len() as int),
            kept@ == all.subrange(0, k as int).filter(keep),
        decreases rest.len(),
    {
        assert(k < all.len());
        let e = rest.remove(0);
        proof {
            reveal(Seq::filter);
            assert(all.subrange(0, k + 1).drop_last() =~= all.subrange(0, k as int));
            assert(e == all[k as int]);
        }
        if !marked[k] {
            kept.push(e);
        }
        k = k + 1;
        assert(rest@ =~= all.subrange(k as int, all.len() as int));
    }
    assert(all.subrange(0, all.len() as int) =~= all);
    kept
}

/// `want` is absent, or equals `have`.
pub open spec fn selects(have: Seq<char>, want: Option<Seq<char>>) -> bool {
    match want {
        Some(w) => have == w,
        None => true,
    }
}

pub open spec fn opt_str(o: Option<&str>) -> Option<Seq<char>> {
    match o {
        Some(s) => Some(s@),
        None => None,
    }
}

fn selects_exec(have: &str, want: Option<&str>) -> (r: bool)
    ensures
        r == selects(have@, opt_str(want)),
{
    match want {
        Some(w) => str_eq(have, w),
        None => true,
    }
}

// ─── keyspaces ──────────────────────────────────────────────────────────

pub open spec fn keyspace_named(name: Seq<char>) -> spec_fn(KeyspaceEntry) -> bool {
    |k: KeyspaceEntry| k.name@ == name
}

pub open spec fn keyspace_kept(name: Seq<char>) -> spec_fn(KeyspaceEntry) -> bool {
    |k: KeyspaceEntry| k.name@ != name
}

pub open spec fn table_named(keyspace: Seq<char>, name: Seq<char>) -> spec_fn(TableEntry) -> bool {
    |t: TableEntry| t.keyspace@ == keyspace && t.name@ == name
}

/// The tables that stay when those of `keyspace` named `name` (all of
/// them, for `None`) go.
pub open spec fn table_kept(keyspace: Seq<char>, name: Option<Seq<char>>) -> spec_fn(TableEntry) -> bool {
    |t: TableEntry| !(t.keyspace@ == keyspace && selects(t.name@, name))
}

pub open spec fn type_named(keyspace: Seq<char>, name: Seq<char>) -> spec_fn(TypeDdl) -> bool {
    |t: TypeDdl| t.keyspace@ == keyspace && t.name@ == name
}

pub open spec fn type_kept(keyspace: Seq<char>, name: Option<Seq<char>>) -> spec_fn(TypeDdl) -> bool {
    |t: TypeDdl| !(t.keyspace@ == keyspace && selects(t.name@, name))
}

pub open spec fn view_named(keyspace: Seq<char>, name: Seq<char>) -> spec_fn(ViewEntry) -> bool {
    |v: ViewEntry| v.keyspace@ == keyspace && v.name@ == name
}

pub open spec fn view_kept(keyspace: Seq<char>, name: Option<Seq<char>>) -> spec_fn(ViewEntry) -> bool {
    |v: ViewEntry| !(v.keyspace@ == keyspace && selects(v.name@, name))
}

pub open spec fn trigger_named(keyspace: Seq<char>, table: Seq<char>, name: Seq<char>) -> spec_fn(TriggerEntry) -> bool {
    |t: TriggerEntry| t.keyspace@ == keyspace && t.table@ == table && t.name@ == name
}

pub open spec fn trigger_kept(keyspace: Seq<char>, table: Option<Seq<char>>, name: Option<Seq<char>>) -> spec_fn(TriggerEntry) -> bool {
    |t: TriggerEntry| !(t.keyspace@ == keyspace && selects(t.table@, table) && selects(t.name@, name))
}

pub open spec fn index_named(keyspace: Seq<char>, name: Seq<char>) -> spec_fn(IndexEntry) -> bool {
    |i: IndexEntry| i.keyspace@ == keyspace && i.name@ == name
}

pub open spec fn index_in(keyspace: Seq<char>, table: Seq<char>, name: Seq<char>) -> spec_fn(IndexEntry) -> bool {
    |i: IndexEntry| i.keyspace@ == keyspace && i.table@ == table && i.name@ == name
}

/// An index of the table that has the name a new index would take, or
/// indexes the column it would index.
pub open spec fn index_conflict(keyspace: Seq<char>, table: Seq<char>, name: Seq<char>, column: Seq<char>) -> spec_fn(IndexEntry) -> bool {
    |i: IndexEntry| i.keyspace@ == keyspace && i.table@ == table && (i.name@ == name || i.target@ == column)
}

pub open spec fn index_kept(keyspace: Seq<char>, table: Option<Seq<char>>, name: Option<Seq<char>>) -> spec_fn(IndexEntry) -> bool {
    |i: IndexEntry| !(i.keyspace@ == keyspace && selects(i.table@, table) && selects(i.name@, name))
}

fn find_keyspace(keyspaces: &Vec<KeyspaceEntry>, name: &str) -> (r: Option<usize>)
    ensures
        match r {
            Some(i) => first_match(keyspaces@, keyspace_named(name@)) == Some(i as int),
            None => first_match(keyspaces@, keyspace_named(name@)) is None,
        },
{
    let mut i: usize = 0;
    while i < keyspaces.len()
        invariant
            i <= keyspaces@.len(),
            first_match(keyspaces@.subrange(0, i as int), keyspace_named(name@)) is None,
        decreases keyspaces.len() - i,
    {
        assert(keyspaces@.subrange(0, i + 1).drop_last() =~= keyspaces@.subrange(0, i as int));
        if str_eq(keyspaces[i].name.as_str(), name) {
            proof { lemma_first_match_prefix(keyspaces@, keyspace_named(name@), i + 1); }
            return Some(i);
        }
        i = i + 1;
    }
    assert(keyspaces@.subrange(0, keyspaces@.len() as int) =~= keyspaces@);
    None
}

fn find_table(tables: &Vec<TableEntry>, keyspace: &str, name: &str) -> (r: Option<usize>)
    ensures
        match r {
            Some(i) => first_match(tables@, table_named(keyspace@, name@)) == Some(i as int),
            None => first_match(tables@, table_named(keyspace@, name@)) is None,
        },
{
    let mut i: usize = 0;
    while i < tables.len()
        invariant
            i <= tables@.len(),
            first_match(tables@.subrange(0, i as int), table_named(keyspace@, name@)) is None,
        decreases tables.len() - i,
    {
        assert(tables@.subrange(0, i + 1).drop_last() =~= tables@.subrange(0, i as int));
        if str_eq(tables[i].keyspace.as_str(), keyspace) && str_eq(tables[i].name.as_str(), name) {
            proof { lemma_first_match_prefix(tables@, table_named(keyspace@, name@), i + 1); }
            return Some(i);
        }
        i = i + 1;
    }
    assert(tables@.subrange(0, tables@.len() as int) =~= tables@);
    None
}

fn keyspace_marks(keyspaces: &Vec<KeyspaceEntry>, name: &str) -> (m: Vec<bool>)
    ensures
        m@.len() == keyspaces@.len(),
        forall|i: int| 0 <= i < keyspaces@.len() ==> m@[i] == !(keyspace_kept(name@))(#[trigger] keyspaces@[i]),
{
    let mut m: Vec<bool> = Vec::new();
    let mut i: usize = 0;
    while i < keyspaces.len()
        invariant
            i <= keyspaces@.len(),
            m@.len() == i,
            forall|j: int| 0 <= j < i ==> m@[j] == !(keyspace_kept(name@))(#[trigger] keyspaces@[j]),
        decreases keyspaces.len() - i,
    {
        let e = &keyspaces[i];
        m.push(str_eq(e.name.as_str(), name));
        i = i + 1;
    }
    m
}

fn table_marks(tables: &Vec<TableEntry>, keyspace: &str, name: Option<&str>) -> (m: Vec<bool>)
    ensures
        m@.len() == tables@.len(),
        forall|i: int| 0 <= i < tables@.len() ==> m@[i] == !(table_kept(keyspace@, opt_str(name)))(#[trigger] tables@[i]),
{
    let mut m: Vec<bool> = Vec::new();
    let mut i: usize = 0;
    while i < tables.len()
        invariant
            i <= tables@.len(),
            m@.len() == i,
            forall|j: int| 0 <= j < i ==> m@[j] == !(table_kept(keyspace@, opt_str(name)))(#[trigger] tables@[j]),
        decreases tables.len() - i,
    {
        let e = &tables[i];
        m.push(str_eq(e.keyspace.as_str(), keyspace) && selects_exec(e.name.as_str(), name));
        i = i + 1;
    }
    m
}

fn type_marks(types: &Vec<TypeDdl>, keyspace: &str, name: Option<&str>) -> (m: Vec<bool>)
    ensures
        m@.len() == types@.len(),
        forall|i: int| 0 <= i < types@.len() ==> m@[i] == !(type_kept(keyspace@, opt_str(name)))(#[trigger] types@[i]),
{
    let mut m: Vec<bool> = Vec::new();
    let mut i: usize = 0;
    while i < types.len()
        invariant
            i <= types@.len(),
            m@.len() == i,
            forall|j: int| 0 <= j < i ==> m@[j] == !(type_kept(keyspace@, opt_str(name)))(#[trigger] types@[j]),
        decreases types.len() - i,
    {
        let e = &types[i];
        m.push(str_eq(e.keyspace.as_str(), keyspace) && selects_exec(e.name.as_str(), name));
        i = i + 1;
    }
    m
}

fn view_marks(views: &Vec<ViewEntry>, keyspace: &str, name: Option<&str>) -> (m: Vec<bool>)
    ensures
        m@.len() == views@.len(),
        forall|i: int| 0 <= i < views@.len() ==> m@[i] == !(view_kept(keyspace@, opt_str(name)))(#[trigger] views@[i]),
{
    let mut m: Vec<bool> = Vec::new();
    let mut i: usize = 0;
    while i < views.len()
        invariant
            i <= views@.len(),
            m@.len() == i,
            forall|j: int| 0 <= j < i ==> m@[j] == !(view_kept(keyspace@, opt_str(name)))(#[trigger] views@[j]),
        decreases views.len() - i,
    {
        let e = &views[i];
        m.push(str_eq(e.keyspace.as_str(), keyspace) && selects_exec(e.name.as_str(), name));
        i = i + 1;
    }
    m
}

fn trigger_marks(triggers: &Vec<TriggerEntry>, keyspace: &str, table: Option<&str>, name: Option<&str>) -> (m: Vec<bool>)
    ensures
        m@.len() == triggers@.len(),
        forall|i: int| 0 <= i < triggers@.len() ==> m@[i] == !(trigger_kept(keyspace@, opt_str(table), opt_str(name)))(#[trigger] triggers@[i]),
{
    let mut m: Vec<bool> = Vec::new();
    let mut i: usize = 0;
    while i < triggers.len()
        invariant
            i <= triggers@.len(),
            m@.len() == i,
            forall|j: int| 0 <= j < i ==> m@[j] == !(trigger_kept(keyspace@, opt_str(table), opt_str(name)))(#[trigger] triggers@[j]),
        decreases triggers.len() - i,
    {
        let e = &triggers[i];
        m.push(str_eq(e.keyspace.as_str(), keyspace) && selects_exec(e.table.as_str(), table) && selects_exec(e.name.as_str(), name));
        i = i + 1;
    }
    m
}

fn index_marks(indexes: &Vec<IndexEntry>, keyspace: &str, table: Option<&str>, name: Option<&str>) -> (m: Vec<bool>)
    ensures
        m@.len() == indexes@.len(),
        forall|i: int| 0 <= i < indexes@.len() ==> m@[i] == !(index_kept(keyspace@, opt_str(table), opt_str(name)))(#[trigger] indexes@[i]),
{
    let mut m: Vec<bool> = Vec::new();
    let mut i: usize = 0;
    while i < indexes.len()
        invariant
            i <= indexes@.len(),
            m@.len() == i,
            forall|j: int| 0 <= j < i ==> m@[j] == !(index_kept(keyspace@, opt_str(table), opt_str(name)))(#[trigger] indexes@[j]),
        decreases indexes.len() - i,
    {
        let e = &indexes[i];
        m.push(str_eq(e.keyspace.as_str(), keyspace) && selects_exec(e.table.as_str(), table) && selects_exec(e.name.as_str(), name));
        i = i + 1;
    }
    m
}

fn find_type(types: &Vec<TypeDdl>, keyspace: &str, name: &str) -> (r: Option<usize>)
    ensures
        match r {
            Some(i) => first_match(types@, type_named(keyspace@, name@)) == Some(i as int),
            None => first_match(types@, type_named(keyspace@, name@)) is None,
        },
{
    let mut i: usize = 0;
    while i < types.len()
        invariant
            i <= types@.len(),
            first_match(types@.subrange(0, i as int), type_named(keyspace@, name@)) is None,
        decreases types.len() - i,
    {
        assert(types@.subrange(0, i + 1).drop_last() =~= types@.subrange(0, i as int));
        let e = &types[i];
        if str_eq(e.keyspace.as_str(), keyspace) && str_eq(e.name.as_str(), name) {
            proof { lemma_first_match_prefix(types@, type_named(keyspace@, name@), i + 1); }
            return Some(i);
        }
        i = i + 1;
    }
    assert(types@.subrange(0, types@.len() as int) =~= types@);
    None
}

fn find_view(views: &Vec<ViewEntry>, keyspace: &str, name: &str) -> (r: Option<usize>)
    ensures
        match r {
            Some(i) => first_match(views@, view_named(keyspace@, name@)) == Some(i as int),
            None => first_match(views@, view_named(keyspace@, name@)) is None,
        },
{
    let mut i: usize = 0;
    while i < views.len()
        invariant
            i <= views@.len(),
            first_match(views@.subrange(0, i as int), view_named(keyspace@, name@)) is None,
        decreases views.len() - i,
    {
        assert(views@.subrange(0, i + 1).drop_last() =~= views@.subrange(0, i as int));
        let e = &views[i];
        if str_eq(e.keyspace.as_str(), keyspace) && str_eq(e.name.as_str(), name) {
            proof { lemma_first_match_prefix(views@, view_named(keyspace@, name@), i + 1); }
            return Some(i);
        }
        i = i + 1;
    }
    assert(views@.subrange(0, views@.len() as int) =~= views@);
    None
}

fn find_trigger(triggers: &Vec<TriggerEntry>, keyspace: &str, table: &str, name: &str) -> (r: Option<usize>)
    ensures
        match r {
            Some(i) => first_match(triggers@, trigger_named(keyspace@, table@, name@)) == Some(i as int),
            None => first_match(triggers@, trigger_named(keyspace@, table@, name@)) is None,
        },
{
    let mut i: usize = 0;
    while i < triggers.len()
        invariant
            i <= triggers@.len(),
            first_match(triggers@.subrange(0, i as int), trigger_named(keyspace@, table@, name@)) is None,
        decreases triggers.len() - i,
    {
        assert(triggers@.subrange(0, i + 1).drop_last() =~= triggers@.subrange(0, i as int));
        let e = &triggers[i];
        if str_eq(e.keyspace.as_str(), keyspace) && str_eq(e.table.as_str(), table) && str_eq(e.name.as_str(), name) {
            proof { lemma_first_match_prefix(triggers@, trigger_named(keyspace@, table@, name@), i + 1); }
            return Some(i);
        }
        i = i + 1;
    }
    assert(triggers@.subrange(0, triggers@.len() as int) =~= triggers@);
    None
}

fn find_index_named(indexes: &Vec<IndexEntry>, keyspace: &str, name: &str) -> (r: Option<usize>)
    ensures
        match r {
            Some(i) => first_match(indexes@, index_named(keyspace@, name@)) == Some(i as int),
            None => first_match(indexes@, index_named(keyspace@, name@)) is None,
        },
{
    let mut i: usize = 0;
    while i < indexes.len()
        invariant
            i <= indexes@.len(),
            first_match(indexes@.subrange(0, i as int), index_named(keyspace@, name@)) is None,
        decreases indexes.len() - i,
    {
        assert(indexes@.subrange(0, i + 1).drop_last() =~= indexes@.subrange(0, i as int));
        let e = &indexes[i];
        if str_eq(e.keyspace.as_str(), keyspace) && str_eq(e.name.as_str(), name) {
            proof { lemma_first_match_prefix(indexes@, index_named(keyspace@, name@), i + 1); }
            return Some(i);
        }
        i = i + 1;
    }
    assert(indexes@.subrange(0, indexes@.len() as int) =~= indexes@);
    None
}

fn find_index_conflict(indexes: &Vec<IndexEntry>, keyspace: &str, table: &str, name: &str, column: &str) -> (r: Option<usize>)
    ensures
        match r {
            Some(i) => first_match(indexes@, index_conflict(keyspace@, table@, name@, column@)) == Some(i as int),
            None => first_match(indexes@, index_conflict(keyspace@, table@, name@, column@)) is None,
        },
{
    let mut i: usize = 0;
    while i < indexes.len()
        invariant
            i <= indexes@.len(),
            first_match(indexes@.subrange(0, i as int), index_conflict(keyspace@, table@, name@, column@)) is None,
        decreases indexes.len() - i,
    {
        assert(indexes@.subrange(0, i + 1).drop_last() =~= indexes@.subrange(0, i as int));
        let e = &indexes[i];
        if str_eq(e.keyspace.as_str(), keyspace) && str_eq(e.table.as_str(), table) && (str_eq(e.name.as_str(), name) || str_eq(e.target.as_str(), column)) {
            proof { lemma_first_match_prefix(indexes@, index_conflict(keyspace@, table@, name@, column@), i + 1); }
            return Some(i);
        }
        i = i + 1;
    }
    assert(indexes@.subrange(0, indexes@.len() as int) =~= indexes@);
    None
}

fn message2(a: &str, b: &str, c: &str) -> (r: String)
    ensures
        r@ == a@ + b@ + c@,
{
    let mut m = String::new();
    push_str(&mut m, a);
    push_str(&mut m, b);
    push_str(&mut m, c);
    m
}

fn message4(a: &str, b: &str, c: &str, d: &str, e: &str) -> (r: String)
    ensures
        r@ == a@ + b@ + c@ + d@ + e@,
{
    let mut m = String::new();
    push_str(&mut m, a);
    push_str(&mut m, b);
    push_str(&mut m, c);
    push_str(&mut m, d);
    push_str(&mut m, e);
    m
}

fn string_of(s: &str) -> (r: String)
    ensures
        r@ == s@,
{
    let mut m = String::new();
    push_str(&mut m, s);
    m
}

fn changed(change_type: ChangeType, target: ChangeTarget, keyspace: &str, name: Option<&str>) -> (r: SchemaOutcome)
    ensures
        announces(r, change_type, target, keyspace@, opt_str(name)),
{
    let name = match name {
        Some(n) => Some(string_of(n)),
        None => None,
    };
    SchemaOutcome::Changed { change_type, target, keyspace: string_of(keyspace), name }
}

pub open spec fn opt_string(o: Option<String>) -> Option<Seq<char>> {
    match o {
        Some(s) => Some(s@),
        None => None,
    }
}

/// `r` announces that change of that object.
pub open spec fn announces(r: SchemaOutcome, change_type: ChangeType, target: ChangeTarget, keyspace: Seq<char>, name: Option<Seq<char>>) -> bool {
    match r {
        SchemaOutcome::Changed { change_type: c, target: t, keyspace: k, name: n } =>
            c == change_type && t == target && k@ == keyspace && opt_string(n) == name,
        SchemaOutcome::Void => false,
    }
}

// ─── unique names ───────────────────────────────────────────────────────

/// No two elements of `s` share a key.
pub open spec fn keys_unique<T, K>(s: Seq<T>, key: spec_fn(T) -> K) -> bool {
    forall|i: int, j: int| 0 <= i < s.len() && 0 <= j < s.len() && i != j ==> key(#[trigger] s[i]) != key(#[trigger] s[j])
}

proof fn lemma_unique_push<T, K>(s: Seq<T>, x: T, key: spec_fn(T) -> K)
    requires
        keys_unique(s, key),
        forall|i: int| 0 <= i < s.len() ==> key(#[trigger] s[i]) != key(x),
    ensures
        keys_unique(s.push(x), key),
{
    let t = s.push(x);
    assert forall|i: int, j: int| 0 <= i < t.len() && 0 <= j < t.len() && i != j implies key(#[trigger] t[i]) != key(#[trigger] t[j]) by {
        if i < s.len() && j < s.len() {
            assert(t[i] == s[i] && t[j] == s[j]);
        } else if i < s.len() {
            assert(t[i] == s[i]);
        } else {
            assert(t[j] == s[j]);
        }
    }
}

proof fn lemma_unique_filter<T, K>(s: Seq<T>, keep: spec_fn(T) -> bool, key: spec_fn(T) -> K)
    requires
        keys_unique(s, key),
    ensures
        keys_unique(s.filter(keep), key),
    decreases s.len(),
{
    reveal(Seq::filter);
    if s.len() > 0 {
        let d = s.drop_last();
        assert forall|i: int, j: int| 0 <= i < d.len() && 0 <= j < d.len() && i != j implies key(#[trigger] d[i]) != key(#[trigger] d[j]) by {
            assert(d[i] == s[i] && d[j] == s[j]);
        }
        lemma_unique_filter(d, keep, key);
        let fd = d.filter(keep);
        if keep(s.last()) {
            assert forall|i: int| 0 <= i < fd.len() implies key(#[trigger] fd[i]) != key(s.last()) by {
                d.lemma_filter_contains_rev(keep, fd[i]);
                let j = choose|j: int| 0 <= j < d.len() && d[j] == fd[i];
                assert(s[j] == d[j]);
                assert(s[s.len() - 1] == s.last());
            }
            lemma_unique_push(fd, s.last(), key);
        }
    }
}

pub open spec fn keyspace_key() -> spec_fn(KeyspaceEntry) -> Seq<char> {
    |k: KeyspaceEntry| k.name@
}

pub open spec fn table_key() -> spec_fn(TableEntry) -> (Seq<char>, Seq<char>) {
    |t: TableEntry| (t.keyspace@, t.name@)
}

pub open spec fn type_key() -> spec_fn(TypeDdl) -> (Seq<char>, Seq<char>) {
    |t: TypeDdl| (t.keyspace@, t.name@)
}

pub open spec fn view_key() -> spec_fn(ViewEntry) -> (Seq<char>, Seq<char>) {
    |v: ViewEntry| (v.keyspace@, v.name@)
}

pub open spec fn trigger_key() -> spec_fn(TriggerEntry) -> (Seq<char>, Seq<char>, Seq<char>) {
    |t: TriggerEntry| (t.keyspace@, t.table@, t.name@)
}

pub open spec fn index_key() -> spec_fn(IndexEntry) -> (Seq<char>, Seq<char>, Seq<char>) {
    |i: IndexEntry| (i.keyspace@, i.table@, i.name@)
}

impl SchemaCatalog {
    /// Names are unique: keyspaces by name, tables, types and views within
    /// their keyspace, triggers and indexes within their table; and each
    /// type has a type for each field.
    pub open spec fn wf(self) -> bool {
        &&& keys_unique(self.keyspaces@, keyspace_key())
        &&& keys_unique(self.tables@, table_key())
        &&& keys_unique(self.types@, type_key())
        &&& keys_unique(self.views@, view_key())
        &&& keys_unique(self.triggers@, trigger_key())
        &&& keys_unique(self.indexes@, index_key())
        &&& types_wf(self.types@)
    }
}

// ─── statements ─────────────────────────────────────────────────────────

/// The strategy a `CREATE KEYSPACE` names, `SimpleStrategy` where it names none.
pub open spec fn created_strategy(replication: Seq<(String, String)>) -> Seq<char> {
    match entry_value(replication, "class"@) {
        Some(c) => c,
        None => "SimpleStrategy"@,
    }
}

/// The keyspaces' tables, views, triggers and indexes are unchanged from `a` to `b`.
pub open spec fn same_objects_but_types(a: SchemaCatalog, b: SchemaCatalog) -> bool {
    &&& a.tables == b.tables
    &&& a.views == b.views
    &&& a.triggers == b.triggers
    &&& a.indexes == b.indexes
}

/// What a keyspace holds besides its own entry is unchanged from `a` to `b`.
pub open spec fn same_objects(a: SchemaCatalog, b: SchemaCatalog) -> bool {
    &&& a.tables == b.tables
    &&& a.types == b.types
    &&& a.views == b.views
    &&& a.triggers == b.triggers
    &&& a.indexes == b.indexes
}

impl SchemaCatalog {
    /// A catalog with nothing in it.
    pub fn new() -> (r: SchemaCatalog)
        ensures
            r.wf(),
            r.keyspaces@.len() == 0,
            r.tables@.len() == 0,
            r.types@.len() == 0,
            r.views@.len() == 0,
            r.triggers@.len() == 0,
            r.indexes@.len() == 0,
    {
        SchemaCatalog {
            keyspaces: Vec::new(),
            tables: Vec::new(),
            types: Vec::new(),
            views: Vec::new(),
            triggers: Vec::new(),
            indexes: Vec::new(),
        }
    }

    pub open spec fn has_keyspace(self, name: Seq<char>) -> bool {
        first_match(self.keyspaces@, keyspace_named(name)) is Some
    }

    pub open spec fn has_table(self, keyspace: Seq<char>, name: Seq<char>) -> bool {
        first_match(self.tables@, table_named(keyspace, name)) is Some
    }

    /// `CREATE KEYSPACE`: the replication options name the strategy under
    /// `class`; the others are kept as the strategy's options.
    pub fn create_keyspace(&mut self, name: &str, replication: Vec<(String, String)>, durable_writes: bool, if_not_exists: bool)
        -> (r: Result<SchemaOutcome, ExecutorError>)
        ensures
            old(self).wf() ==> final(self).wf(),
            r is Ok ==> final(self).has_keyspace(name@),
            if old(self).has_keyspace(name@) {
                &&& *final(self) == *old(self)
                &&& if if_not_exists {
                    r matches Ok(SchemaOutcome::Void)
                } else {
                    r matches Err(ExecutorError::InvalidQuery(m)) && m@ == "Keyspace '"@ + name@ + "' already exists"@
                }
            } else {
                &&& r matches Ok(o) && announces(o, ChangeType::Created, ChangeTarget::Keyspace, name@, None)
                &&& final(self).keyspaces@.len() == old(self).keyspaces@.len() + 1
                &&& final(self).keyspaces@.drop_last() == old(self).keyspaces@
                &&& final(self).keyspaces@.last().name@ == name@
                &&& final(self).keyspaces@.last().params.durable_writes == durable_writes
                &&& final(self).keyspaces@.last().params.strategy_class@ == created_strategy(replication@)
                &&& final(self).keyspaces@.last().params.replication@ == without_key(replication@, "class"@)
                &&& final(self).keyspaces@.last().params.comment@ == Seq::<char>::empty()
                &&& same_objects(*final(self), *old(self))
            },
    {
        if find_keyspace(&self.keyspaces, name).is_some() {
            if if_not_exists {
                return Ok(SchemaOutcome::Void);
            }
            return Err(ExecutorError::InvalidQuery(message2("Keyspace '", name, "' already exists")));
        }
        let strategy_class = match find_value(&replication, "class") {
            Some(c) => c,
            None => string_of("SimpleStrategy"),
        };
        let options = remove_key(replication, "class");
        let params = KeyspaceParams { durable_writes, strategy_class, replication: options, comment: String::new() };
        let ghost pre_keyspaces = self.keyspaces@;
        self.keyspaces.push(KeyspaceEntry { name: string_of(name), params });
        proof {
            lemma_first_match(pre_keyspaces, keyspace_named(name@));
            assert(self.keyspaces@ =~= pre_keyspaces.push(self.keyspaces@.last()));
            if keys_unique(pre_keyspaces, keyspace_key()) {
                lemma_unique_push(pre_keyspaces, self.keyspaces@.last(), keyspace_key());
            }
        }
        Ok(changed(ChangeType::Created, ChangeTarget::Keyspace, name, None))
    }

    /// `ALTER KEYSPACE`: new replication options replace the old ones (the
    /// strategy stays where they name none), and a given durability or
    /// comment replaces the old one.
    pub fn alter_keyspace(
        &mut self,
        name: &str,
        replication: Option<Vec<(String, String)>>,
        durable_writes: Option<bool>,
        comment: Option<String>,
    ) -> (r: Result<SchemaOutcome, ExecutorError>)
        ensures
            old(self).wf() ==> final(self).wf(),
            match first_match(old(self).keyspaces@, keyspace_named(name@)) {
                None => *final(self) == *old(self) && (r matches Err(ExecutorError::KeyspaceNotFound(k)) && k@ == name@),
                Some(i) => {
                    let before = old(self).keyspaces@[i].params;
                    let after = final(self).keyspaces@[i];
                    &&& r matches Ok(o) && announces(o, ChangeType::Updated, ChangeTarget::Keyspace, name@, None)
                    &&& final(self).keyspaces@.len() == old(self).keyspaces@.len()
                    &&& forall|j: int| 0 <= j < old(self).keyspaces@.len() && j != i ==> final(self).keyspaces@[j] == old(self).keyspaces@[j]
                    &&& after.name == old(self).keyspaces@[i].name
                    &&& match replication {
                        Some(repl) => after.params.strategy_class@ == (match entry_value(repl@, "class"@) {
                                Some(c) => c,
                                None => before.strategy_class@,
                            }) && after.params.replication@ == without_key(repl@, "class"@),
                        None => after.params.strategy_class == before.strategy_class && after.params.replication == before.replication,
                    }
                    &&& after.params.durable_writes == match durable_writes { Some(d) => d, None => before.durable_writes }
                    &&& after.params.comment == match comment { Some(c) => c, None => before.comment }
                    &&& same_objects(*final(self), *old(self))
                },
            },
    {
        let i = match find_keyspace(&self.keyspaces, name) {
            Some(i) => i,
            None => return Err(ExecutorError::KeyspaceNotFound(string_of(name))),
        };
        proof { lemma_first_match(self.keyspaces@, keyspace_named(name@)); }
        let mut entry = self.keyspaces.remove(i);
        match replication {
            Some(repl) => {
                let strategy_class = match find_value(&repl, "class") {
                    Some(c) => c,
                    None => entry.params.strategy_class,
                };
                let options = remove_key(repl, "class");
                entry.params.strategy_class = strategy_class;
                entry.params.replication = options;
            },
            None => {},
        }
        match durable_writes {
            Some(d) => {
                entry.params.durable_writes = d;
            },
            None => {},
        }
        match comment {
            Some(c) => {
                entry.params.comment = c;
            },
            None => {},
        }
        self.keyspaces.insert(i, entry);
        Ok(changed(ChangeType::Updated, ChangeTarget::Keyspace, name, None))
    }

    /// `DROP KEYSPACE`: the keyspace goes with everything in it.
    pub fn drop_keyspace(&mut self, name: &str, if_exists: bool) -> (r: Result<SchemaOutcome, ExecutorError>)
        ensures
            old(self).wf() ==> final(self).wf(),
            r is Ok ==> !final(self).has_keyspace(name@),
            types_wf(old(self).types@) ==> types_wf(final(self).types@),
            if old(self).has_keyspace(name@) {
                &&& r matches Ok(o) && announces(o, ChangeType::Dropped, ChangeTarget::Keyspace, name@, None)
                &&& final(self).keyspaces@ == old(self).keyspaces@.filter(keyspace_kept(name@))
                &&& final(self).tables@ == old(self).tables@.filter(table_kept(name@, None))
                &&& final(self).types@ == old(self).types@.filter(type_kept(name@, None))
                &&& final(self).views@ == old(self).views@.filter(view_kept(name@, None))
                &&& final(self).triggers@ == old(self).triggers@.filter(trigger_kept(name@, None, None))
                &&& final(self).indexes@ == old(self).indexes@.filter(index_kept(name@, None, None))
                &&& forall|i: int| 0 <= i < final(self).tables@.len() ==> (#[trigger] final(self).tables@[i]).keyspace@ != name@
                &&& forall|i: int| 0 <= i < final(self).types@.len() ==> (#[trigger] final(self).types@[i]).keyspace@ != name@
                &&& forall|i: int| 0 <= i < final(self).views@.len() ==> (#[trigger] final(self).views@[i]).keyspace@ != name@
                &&& forall|i: int| 0 <= i < final(self).triggers@.len() ==> (#[trigger] final(self).triggers@[i]).keyspace@ != name@
                &&& forall|i: int| 0 <= i < final(self).indexes@.len() ==> (#[trigger] final(self).indexes@[i]).keyspace@ != name@
            } else {
                &&& *final(self) == *old(self)
                &&& if if_exists {
                    r matches Ok(SchemaOutcome::Void)
                } else {
                    r matches Err(ExecutorError::KeyspaceNotFound(k)) && k@ == name@
                }
            },
    {
        if find_keyspace(&self.keyspaces, name).is_none() {
            if if_exists {
                return Ok(SchemaOutcome::Void);
            }
            return Err(ExecutorError::KeyspaceNotFound(string_of(name)));
        }
        let mut keyspaces: Vec<KeyspaceEntry> = Vec::new();
        std::mem::swap(&mut keyspaces, &mut self.keyspaces);
        let m = keyspace_marks(&keyspaces, name);
        let ghost before = keyspaces@;
        let ghost pre_keyspaces = keyspaces@;
        self.keyspaces = retain_unmarked(keyspaces, &m, Ghost(keyspace_kept(name@)));
        proof { if keys_unique(pre_keyspaces, keyspace_key()) { lemma_unique_filter(pre_keyspaces, keyspace_kept(name@), keyspace_key()); } }
        proof { lemma_filtered_out(before, keyspace_named(name@), keyspace_kept(name@)); }
        let mut tables: Vec<TableEntry> = Vec::new();
        std::mem::swap(&mut tables, &mut self.tables);
        let m = table_marks(&tables, name, None);
        let ghost before = tables@;
        let ghost pre_tables = tables@;
        self.tables = retain_unmarked(tables, &m, Ghost(table_kept(name@, None)));
        proof { if keys_unique(pre_tables, table_key()) { lemma_unique_filter(pre_tables, table_kept(name@, None), table_key()); } }
        proof {
            assert forall|i: int| 0 <= i < self.tables@.len() implies (#[trigger] self.tables@[i]).keyspace@ != name@ by {
                before.lemma_filter_pred(table_kept(name@, None), i);
            }
        }
        let mut types: Vec<TypeDdl> = Vec::new();
        std::mem::swap(&mut types, &mut self.types);
        let m = type_marks(&types, name, None);
        let ghost before = types@;
        let ghost pre_types = types@;
        self.types = retain_unmarked(types, &m, Ghost(type_kept(name@, None)));
        proof { if keys_unique(pre_types, type_key()) { lemma_unique_filter(pre_types, type_kept(name@, None), type_key()); } }
        proof {
            lemma_filter_keeps_wf(before, type_kept(name@, None));
            assert forall|i: int| 0 <= i < self.types@.len() implies (#[trigger] self.types@[i]).keyspace@ != name@ by {
                before.lemma_filter_pred(type_kept(name@, None), i);
            }
        }
        let mut views: Vec<ViewEntry> = Vec::new();
        std::mem::swap(&mut views, &mut self.views);
        let m = view_marks(&views, name, None);
        let ghost before = views@;
        let ghost pre_views = views@;
        self.views = retain_unmarked(views, &m, Ghost(view_kept(name@, None)));
        proof { if keys_unique(pre_views, view_key()) { lemma_unique_filter(pre_views, view_kept(name@, None), view_key()); } }
        proof { lemma_filter_all(before, view_kept(name@, None)); }
        let mut triggers: Vec<TriggerEntry> = Vec::new();
        std::mem::swap(&mut triggers, &mut self.triggers);
        let m = trigger_marks(&triggers, name, None, None);
        let ghost before = triggers@;
        let ghost pre_triggers = triggers@;
        self.triggers = retain_unmarked(triggers, &m, Ghost(trigger_kept(name@, None, None)));
        proof { if keys_unique(pre_triggers, trigger_key()) { lemma_unique_filter(pre_triggers, trigger_kept(name@, None, None), trigger_key()); } }
        proof { lemma_filter_all(before, trigger_kept(name@, None, None)); }
        let mut indexes: Vec<IndexEntry> = Vec::new();
        std::mem::swap(&mut indexes, &mut self.indexes);
        let m = index_marks(&indexes, name, None, None);
        let ghost before = indexes@;
        let ghost pre_indexes = indexes@;
        self.indexes = retain_unmarked(indexes, &m, Ghost(index_kept(name@, None, None)));
        proof { if keys_unique(pre_indexes, index_key()) { lemma_unique_filter(pre_indexes, index_kept(name@, None, None), index_key()); } }
        proof { lemma_filter_all(before, index_kept(name@, None, None)); }
        Ok(changed(ChangeType::Dropped, ChangeTarget::Keyspace, name, None))
    }
}

/// Every stored type has a type for each of its fields.
pub open spec fn types_wf(types: Seq<TypeDdl>) -> bool {
    forall|i: int| 0 <= i < types.len() ==> (#[trigger] types[i]).field_names@.len() == types[i].field_types@.len()
}

/// The field names of a type definition.
pub open spec fn field_names_of(fields: Seq<(String, String)>) -> Seq<String> {
    Seq::new(fields.len(), |i: int| fields[i].0)
}

/// The field types of a type definition.
pub open spec fn field_types_of(fields: Seq<(String, String)>) -> Seq<String> {
    Seq::new(fields.len(), |i: int| fields[i].1)
}

fn split_fields(fields: Vec<(String, String)>) -> (r: (Vec<String>, Vec<String>))
    ensures
        r.0@ == field_names_of(fields@),
        r.1@ == field_types_of(fields@),
{
    let ghost all = fields@;
    let mut names: Vec<String> = Vec::new();
    let mut types: Vec<String> = Vec::new();
    let mut rest = fields;
    let mut k: usize = 0;
    assert(all.len() == rest.len());
    while rest.len() > 0
        invariant
            k <= all.len() <= usize::MAX,
            rest@ == all.subrange(k as int, all.len() as int),
            names@ == field_names_of(all.subrange(0, k as int)),
            types@ == field_types_of(all.subrange(0, k as int)),
        decreases rest.len(),
    {
        assert(k < all.len());
        let (n, t) = rest.remove(0);
        names.push(n);
        types.push(t);
        k = k + 1;
        assert(rest@ =~= all.subrange(k as int, all.len() as int));
        assert(names@ =~= field_names_of(all.subrange(0, k as int)));
        assert(types@ =~= field_types_of(all.subrange(0, k as int)));
    }
    assert(all.subrange(0, all.len() as int) =~= all);
    (names, types)
}

impl SchemaCatalog {
    pub open spec fn has_type(self, keyspace: Seq<char>, name: Seq<char>) -> bool {
        first_match(self.types@, type_named(keyspace, name)) is Some
    }

    /// `CREATE TABLE`, for a table whose columns and parameters were built
    /// from the statement.
    pub fn create_table(&mut self, keyspace: &str, name: &str, schema: TableSchema, params: TableParams, if_not_exists: bool)
        -> (r: Result<SchemaOutcome, ExecutorError>)
        ensures
            old(self).wf() ==> final(self).wf(),
            r is Ok ==> final(self).has_table(keyspace@, name@),
            if !old(self).has_keyspace(keyspace@) {
                *final(self) == *old(self) && (r matches Err(ExecutorError::KeyspaceNotFound(k)) && k@ == keyspace@)
            } else if old(self).has_table(keyspace@, name@) {
                &&& *final(self) == *old(self)
                &&& if if_not_exists {
                    r matches Ok(SchemaOutcome::Void)
                } else {
                    r matches Err(ExecutorError::InvalidQuery(m)) && m@ == "Table '"@ + keyspace@ + "."@ + name@ + "' already exists"@
                }
            } else {
                &&& r matches Ok(o) && announces(o, ChangeType::Created, ChangeTarget::Table, keyspace@, Some(name@))
                &&& final(self).tables@.len() == old(self).tables@.len() + 1
                &&& final(self).tables@.drop_last() == old(self).tables@
                &&& final(self).tables@.last().keyspace@ == keyspace@
                &&& final(self).tables@.last().name@ == name@
                &&& final(self).tables@.last().schema == schema
                &&& final(self).tables@.last().params == params
                &&& final(self).keyspaces == old(self).keyspaces
                &&& final(self).types == old(self).types
                &&& final(self).views == old(self).views
                &&& final(self).triggers == old(self).triggers
                &&& final(self).indexes == old(self).indexes
            },
    {
        if find_keyspace(&self.keyspaces, keyspace).is_none() {
            return Err(ExecutorError::KeyspaceNotFound(string_of(keyspace)));
        }
        if find_table(&self.tables, keyspace, name).is_some() {
            if if_not_exists {
                return Ok(SchemaOutcome::Void);
            }
            return Err(ExecutorError::InvalidQuery(message4("Table '", keyspace, ".", name, "' already exists")));
        }
        let ghost pre_tables = self.tables@;
        self.tables.push(TableEntry { keyspace: string_of(keyspace), name: string_of(name), schema, params });
        proof {
            lemma_first_match(pre_tables, table_named(keyspace@, name@));
            assert(self.tables@ =~= pre_tables.push(self.tables@.last()));
            if keys_unique(pre_tables, table_key()) {
                lemma_unique_push(pre_tables, self.tables@.last(), table_key());
            }
        }
        Ok(changed(ChangeType::Created, ChangeTarget::Table, keyspace, Some(name)))
    }

    /// `DROP TABLE`: the table goes with its triggers and indexes.
    pub fn drop_table(&mut self, keyspace: &str, name: &str, if_exists: bool) -> (r: Result<SchemaOutcome, ExecutorError>)
        ensures
            old(self).wf() ==> final(self).wf(),
            r is Ok ==> !final(self).has_table(keyspace@, name@),
            if !old(self).has_keyspace(keyspace@) {
                *final(self) == *old(self) && (r matches Err(ExecutorError::KeyspaceNotFound(k)) && k@ == keyspace@)
            } else if !old(self).has_table(keyspace@, name@) {
                &&& *final(self) == *old(self)
                &&& if if_exists {
                    r matches Ok(SchemaOutcome::Void)
                } else {
                    r matches Err(ExecutorError::TableNotFound(k, t)) && k@ == keyspace@ && t@ == name@
                }
            } else {
                &&& r matches Ok(o) && announces(o, ChangeType::Dropped, ChangeTarget::Table, keyspace@, Some(name@))
                &&& final(self).tables@ == old(self).tables@.filter(table_kept(keyspace@, Some(name@)))
                &&& final(self).triggers@ == old(self).triggers@.filter(trigger_kept(keyspace@, Some(name@), None))
                &&& final(self).indexes@ == old(self).indexes@.filter(index_kept(keyspace@, Some(name@), None))
                &&& forall|i: int| 0 <= i < final(self).triggers@.len()
                    ==> !((#[trigger] final(self).triggers@[i]).keyspace@ == keyspace@ && final(self).triggers@[i].table@ == name@)
                &&& forall|i: int| 0 <= i < final(self).indexes@.len()
                    ==> !((#[trigger] final(self).indexes@[i]).keyspace@ == keyspace@ && final(self).indexes@[i].table@ == name@)
                &&& final(self).keyspaces == old(self).keyspaces
                &&& final(self).types == old(self).types
                &&& final(self).views == old(self).views
            },
    {
        if find_keyspace(&self.keyspaces, keyspace).is_none() {
            return Err(ExecutorError::KeyspaceNotFound(string_of(keyspace)));
        }
        if find_table(&self.tables, keyspace, name).is_none() {
            if if_exists {
                return Ok(SchemaOutcome::Void);
            }
            return Err(ExecutorError::TableNotFound(string_of(keyspace), string_of(name)));
        }
        let mut tables: Vec<TableEntry> = Vec::new();
        std::mem::swap(&mut tables, &mut self.tables);
        let m = table_marks(&tables, keyspace, Some(name));
        let ghost before = tables@;
        let ghost pre_tables = tables@;
        self.tables = retain_unmarked(tables, &m, Ghost(table_kept(keyspace@, Some(name@))));
        proof { if keys_unique(pre_tables, table_key()) { lemma_unique_filter(pre_tables, table_kept(keyspace@, Some(name@)), table_key()); } }
        proof { lemma_filtered_out(before, table_named(keyspace@, name@), table_kept(keyspace@, Some(name@))); }
        let mut triggers: Vec<TriggerEntry> = Vec::new();
        std::mem::swap(&mut triggers, &mut self.triggers);
        let m = trigger_marks(&triggers, keyspace, Some(name), None);
        let ghost before = triggers@;
        let ghost pre_triggers = triggers@;
        self.triggers = retain_unmarked(triggers, &m, Ghost(trigger_kept(keyspace@, Some(name@), None)));
        proof { if keys_unique(pre_triggers, trigger_key()) { lemma_unique_filter(pre_triggers, trigger_kept(keyspace@, Some(name@), None), trigger_key()); } }
        proof {
            assert forall|i: int| 0 <= i < self.triggers@.len()
                implies !((#[trigger] self.triggers@[i]).keyspace@ == keyspace@ && self.triggers@[i].table@ == name@) by {
                before.lemma_filter_pred(trigger_kept(keyspace@, Some(name@), None), i);
            }
        }
        let mut indexes: Vec<IndexEntry> = Vec::new();
        std::mem::swap(&mut indexes, &mut self.indexes);
        let m = index_marks(&indexes, keyspace, Some(name), None);
        let ghost before = indexes@;
        let ghost pre_indexes = indexes@;
        self.indexes = retain_unmarked(indexes, &m, Ghost(index_kept(keyspace@, Some(name@), None)));
        proof { if keys_unique(pre_indexes, index_key()) { lemma_unique_filter(pre_indexes, index_kept(keyspace@, Some(name@), None), index_key()); } }
        proof {
            assert forall|i: int| 0 <= i < self.indexes@.len()
                implies !((#[trigger] self.indexes@[i]).keyspace@ == keyspace@ && self.indexes@[i].table@ == name@) by {
                before.lemma_filter_pred(index_kept(keyspace@, Some(name@), None), i);
            }
        }
        Ok(changed(ChangeType::Dropped, ChangeTarget::Table, keyspace, Some(name)))
    }

    /// Whether `TRUNCATE` may go ahead: the table must exist.
    pub fn check_truncate(&self, keyspace: &str, table: &str) -> (r: Result<(), ExecutorError>)
        ensures
            if !self.has_keyspace(keyspace@) {
                r matches Err(ExecutorError::KeyspaceNotFound(k)) && k@ == keyspace@
            } else if !self.has_table(keyspace@, table@) {
                r matches Err(ExecutorError::TableNotFound(k, t)) && k@ == keyspace@ && t@ == table@
            } else {
                r is Ok
            },
    {
        if find_keyspace(&self.keyspaces, keyspace).is_none() {
            return Err(ExecutorError::KeyspaceNotFound(string_of(keyspace)));
        }
        if find_table(&self.tables, keyspace, table).is_none() {
            return Err(ExecutorError::TableNotFound(string_of(keyspace), string_of(table)));
        }
        Ok(())
    }

    /// `CREATE TYPE` with its fields' names and types.
    pub fn create_type(&mut self, keyspace: &str, name: &str, fields: Vec<(String, String)>, if_not_exists: bool)
        -> (r: Result<SchemaOutcome, ExecutorError>)
        ensures
            old(self).wf() ==> final(self).wf(),
            r is Ok ==> final(self).has_type(keyspace@, name@),
            types_wf(old(self).types@) ==> types_wf(final(self).types@),
            if !old(self).has_keyspace(keyspace@) {
                *final(self) == *old(self) && (r matches Err(ExecutorError::KeyspaceNotFound(k)) && k@ == keyspace@)
            } else if old(self).has_type(keyspace@, name@) {
                &&& *final(self) == *old(self)
                &&& if if_not_exists {
                    r matches Ok(SchemaOutcome::Void)
                } else {
                    r matches Err(ExecutorError::InvalidQuery(m)) && m@ == "Type '"@ + keyspace@ + "."@ + name@ + "' already exists"@
                }
            } else {
                let t = final(self).types@.last();
                &&& r matches Ok(o) && announces(o, ChangeType::Created, ChangeTarget::Type, keyspace@, Some(name@))
                &&& final(self).types@.len() == old(self).types@.len() + 1
                &&& final(self).types@.drop_last() == old(self).types@
                &&& t.keyspace@ == keyspace@ && t.name@ == name@
                &&& t.field_names@ == field_names_of(fields@)
                &&& t.field_types@ == field_types_of(fields@)
                &&& t.comment@ == Seq::<char>::empty() && t.field_comments@.len() == 0
                &&& final(self).keyspaces == old(self).keyspaces
                &&& final(self).tables == old(self).tables
                &&& final(self).views == old(self).views
                &&& final(self).triggers == old(self).triggers
                &&& final(self).indexes == old(self).indexes
            },
    {
        if find_keyspace(&self.keyspaces, keyspace).is_none() {
            return Err(ExecutorError::KeyspaceNotFound(string_of(keyspace)));
        }
        if find_type(&self.types, keyspace, name).is_some() {
            if if_not_exists {
                return Ok(SchemaOutcome::Void);
            }
            return Err(ExecutorError::InvalidQuery(message4("Type '", keyspace, ".", name, "' already exists")));
        }
        let (field_names, field_types) = split_fields(fields);
        let udt = TypeDdl {
            keyspace: string_of(keyspace),
            name: string_of(name),
            field_names,
            field_types,
            comment: String::new(),
            field_comments: Vec::new(),
        };
        let ghost pre_types = self.types@;
        self.types.push(udt);
        proof {
            lemma_first_match(pre_types, type_named(keyspace@, name@));
            assert(self.types@ =~= pre_types.push(self.types@.last()));
            if keys_unique(pre_types, type_key()) {
                lemma_unique_push(pre_types, self.types@.last(), type_key());
            }
        }
        Ok(changed(ChangeType::Created, ChangeTarget::Type, keyspace, Some(name)))
    }

    /// `DROP TYPE`.
    pub fn drop_type(&mut self, keyspace: &str, name: &str, if_exists: bool) -> (r: Result<SchemaOutcome, ExecutorError>)
        ensures
            old(self).wf() ==> final(self).wf(),
            r is Ok ==> !final(self).has_type(keyspace@, name@),
            types_wf(old(self).types@) ==> types_wf(final(self).types@),
            if !old(self).has_keyspace(keyspace@) {
                *final(self) == *old(self) && (r matches Err(ExecutorError::KeyspaceNotFound(k)) && k@ == keyspace@)
            } else if !old(self).has_type(keyspace@, name@) {
                &&& *final(self) == *old(self)
                &&& if if_exists {
                    r matches Ok(SchemaOutcome::Void)
                } else {
                    r matches Err(ExecutorError::InvalidQuery(m)) && m@ == "Type '"@ + keyspace@ + "."@ + name@ + "' does not exist"@
                }
            } else {
                &&& r matches Ok(o) && announces(o, ChangeType::Dropped, ChangeTarget::Type, keyspace@, Some(name@))
                &&& final(self).types@ == old(self).types@.filter(type_kept(keyspace@, Some(name@)))
                &&& final(self).keyspaces == old(self).keyspaces
                &&& final(self).tables == old(self).tables
                &&& final(self).views == old(self).views
                &&& final(self).triggers == old(self).triggers
                &&& final(self).indexes == old(self).indexes
            },
    {
        if find_keyspace(&self.keyspaces, keyspace).is_none() {
            return Err(ExecutorError::KeyspaceNotFound(string_of(keyspace)));
        }
        if find_type(&self.types, keyspace, name).is_none() {
            if if_exists {
                return Ok(SchemaOutcome::Void);
            }
            return Err(ExecutorError::InvalidQuery(message4("Type '", keyspace, ".", name, "' does not exist")));
        }
        let mut types: Vec<TypeDdl> = Vec::new();
        std::mem::swap(&mut types, &mut self.types);
        let m = type_marks(&types, keyspace, Some(name));
        let ghost before = types@;
        let ghost pre_types = types@;
        self.types = retain_unmarked(types, &m, Ghost(type_kept(keyspace@, Some(name@))));
        proof { if keys_unique(pre_types, type_key()) { lemma_unique_filter(pre_types, type_kept(keyspace@, Some(name@)), type_key()); } }
        proof {
            lemma_filter_keeps_wf(before, type_kept(keyspace@, Some(name@)));
            lemma_filtered_out(before, type_named(keyspace@, name@), type_kept(keyspace@, Some(name@)));
        }
        Ok(changed(ChangeType::Dropped, ChangeTarget::Type, keyspace, Some(name)))
    }
}

proof fn lemma_filter_keeps_wf(types: Seq<TypeDdl>, keep: spec_fn(TypeDdl) -> bool)
    ensures
        types_wf(types) ==> types_wf(types.filter(keep)),
{
    if types_wf(types) {
        let f = types.filter(keep);
        assert forall|i: int| 0 <= i < f.len() implies (#[trigger] f[i]).field_names@.len() == f[i].field_types@.len() by {
            types.lemma_filter_contains_rev(keep, f[i]);
            let j = choose|j: int| 0 <= j < types.len() && types[j] == f[i];
        }
    }
}

/// The message of a type a statement names that does not exist.
pub open spec fn type_missing_message(keyspace: Seq<char>, name: Seq<char>) -> Seq<char> {
    "Type '"@ + keyspace + "."@ + name + "' does not exist"@
}

/// The options after each update in turn has replaced the entries of its key.
pub open spec fn options_after(options: Seq<(String, String)>, updates: Seq<(String, String)>) -> Seq<(String, String)>
    decreases updates.len(),
{
    if updates.len() == 0 {
        options
    } else {
        without_key(options_after(options, updates.drop_last()), updates.last().0@).push(updates.last())
    }
}

fn apply_option_updates(options: Vec<(String, String)>, updates: Vec<(String, String)>) -> (r: Vec<(String, String)>)
    ensures
        r@ == options_after(options@, updates@),
{
    let ghost all = updates@;
    let mut current = options;
    let ghost start = current@;
    let mut rest = updates;
    let mut k: usize = 0;
    assert(all.len() == rest.len());
    while rest.len() > 0
        invariant
            k <= all.len() <= usize::MAX,
            rest@ == all.subrange(k as int, all.len() as int),
            current@ == options_after(start, all.subrange(0, k as int)),
        decreases rest.len(),
    {
        assert(k < all.len());
        let (key, value) = rest.remove(0);
        assert(all.subrange(0, k + 1).drop_last() =~= all.subrange(0, k as int));
        let removed = remove_key(current, key.as_str());
        current = removed;
        current.push((key, value));
        k = k + 1;
        assert(rest@ =~= all.subrange(k as int, all.len() as int));
    }
    assert(all.subrange(0, all.len() as int) =~= all);
    current
}

impl SchemaCatalog {
    pub open spec fn has_view(self, keyspace: Seq<char>, name: Seq<char>) -> bool {
        first_match(self.views@, view_named(keyspace, name)) is Some
    }

    pub open spec fn has_trigger(self, keyspace: Seq<char>, table: Seq<char>, name: Seq<char>) -> bool {
        first_match(self.triggers@, trigger_named(keyspace, table, name)) is Some
    }

    /// `ALTER TYPE`: the change `alter_user_type` describes, made to the
    /// stored type.
    pub fn alter_type(&mut self, keyspace: &str, name: &str, op: AlterTypeOp) -> (r: Result<SchemaOutcome, ExecutorError>)
        requires
            types_wf(old(self).types@),
        ensures
            old(self).wf() ==> final(self).wf(),
            types_wf(final(self).types@),
            final(self).keyspaces == old(self).keyspaces,
            same_objects_but_types(*final(self), *old(self)),
            if !old(self).has_keyspace(keyspace@) {
                *final(self) == *old(self) && (r matches Err(ExecutorError::KeyspaceNotFound(k)) && k@ == keyspace@)
            } else {
                match first_match(old(self).types@, type_named(keyspace@, name@)) {
                    None => *final(self) == *old(self)
                        && (r matches Err(ExecutorError::InvalidQuery(m)) && m@ == type_missing_message(keyspace@, name@)),
                    Some(i) => {
                        &&& final(self).types@.len() == old(self).types@.len()
                        &&& forall|j: int| 0 <= j < old(self).types@.len() && j != i ==> final(self).types@[j] == old(self).types@[j]
                        &&& match r {
                            Ok(o) => announces(o, ChangeType::Updated, ChangeTarget::Type, keyspace@, Some(name@))
                                && alter_user_type_spec(old(self).types@[i], op, final(self).types@[i], Ok(())),
                            Err(e) => final(self).types@ == old(self).types@
                                && alter_user_type_spec(old(self).types@[i], op, final(self).types@[i], Err(e)),
                        }
                    },
                }
            },
    {
        if find_keyspace(&self.keyspaces, keyspace).is_none() {
            return Err(ExecutorError::KeyspaceNotFound(string_of(keyspace)));
        }
        let i = match find_type(&self.types, keyspace, name) {
            Some(i) => i,
            None => return Err(ExecutorError::InvalidQuery(message4("Type '", keyspace, ".", name, "' does not exist"))),
        };
        proof { lemma_first_match(self.types@, type_named(keyspace@, name@)); }
        let ghost before = self.types@;
        let mut udt = self.types.remove(i);
        assert(udt == before[i as int]);
        let outcome = alter_user_type(&mut udt, op);
        self.types.insert(i, udt);
        assert(self.types@ =~= before.update(i as int, self.types@[i as int]));
        match outcome {
            Ok(()) => Ok(changed(ChangeType::Updated, ChangeTarget::Type, keyspace, Some(name))),
            Err(e) => {
                assert(self.types@ =~= before);
                Err(e)
            },
        }
    }
}

/// What `CREATE MATERIALIZED VIEW` defines besides the view's name.
#[derive(Debug)]
pub struct ViewPlan {
    pub base_table: String,
    /// The selected columns; `None` for `SELECT *`.
    pub select_columns: Option<Vec<Selector>>,
    /// The view's `WHERE` clause as stored text.
    pub where_clause: String,
    pub partition_key: Vec<String>,
    pub clustering_key: Vec<String>,
    pub options: Vec<(String, String)>,
}

/// The names of the plain column selectors, in order; others are left out.
pub open spec fn column_selector_names(selectors: Seq<Selector>) -> Seq<Seq<char>>
    decreases selectors.len(),
{
    if selectors.len() == 0 {
        seq![]
    } else {
        let rest = column_selector_names(selectors.drop_last());
        match selectors.last() {
            Selector::Column(n) => rest.push(n@),
            _ => rest,
        }
    }
}

pub open spec fn string_views(v: Seq<String>) -> Seq<Seq<char>> {
    Seq::new(v.len(), |i: int| v[i]@)
}

fn column_names(selectors: &Vec<Selector>) -> (r: Vec<String>)
    ensures
        string_views(r@) == column_selector_names(selectors@),
{
    let mut out: Vec<String> = Vec::new();
    let mut i: usize = 0;
    while i < selectors.len()
        invariant
            i <= selectors@.len(),
            string_views(out@) == column_selector_names(selectors@.subrange(0, i as int)),
        decreases selectors.len() - i,
    {
        assert(selectors@.subrange(0, i + 1).drop_last() =~= selectors@.subrange(0, i as int));
        match &selectors[i] {
            Selector::Column(n) => {
                out.push(string_of(n.as_str()));
            },
            _ => {},
        }
        assert(string_views(out@) =~= column_selector_names(selectors@.subrange(0, i + 1)));
        i = i + 1;
    }
    assert(selectors@.subrange(0, selectors@.len() as int) =~= selectors@);
    out
}

impl SchemaCatalog {
    /// `CREATE MATERIALIZED VIEW` over a table of the same keyspace.
    pub fn create_view(&mut self, keyspace: &str, name: &str, plan: ViewPlan, if_not_exists: bool)
        -> (r: Result<SchemaOutcome, ExecutorError>)
        ensures
            old(self).wf() ==> final(self).wf(),
            r is Ok ==> final(self).has_view(keyspace@, name@),
            if !old(self).has_keyspace(keyspace@) {
                *final(self) == *old(self) && (r matches Err(ExecutorError::KeyspaceNotFound(k)) && k@ == keyspace@)
            } else if old(self).has_view(keyspace@, name@) {
                &&& *final(self) == *old(self)
                &&& if if_not_exists {
                    r matches Ok(SchemaOutcome::Void)
                } else {
                    r matches Err(ExecutorError::InvalidQuery(m))
                        && m@ == "Materialized view '"@ + keyspace@ + "."@ + name@ + "' already exists"@
                }
            } else if !old(self).has_table(keyspace@, plan.base_table@) {
                *final(self) == *old(self)
                    && (r matches Err(ExecutorError::TableNotFound(k, t)) && k@ == keyspace@ && t@ == plan.base_table@)
            } else {
                let v = final(self).views@.last();
                &&& r matches Ok(o) && announces(o, ChangeType::Created, ChangeTarget::Table, keyspace@, Some(name@))
                &&& final(self).views@.len() == old(self).views@.len() + 1
                &&& final(self).views@.drop_last() == old(self).views@
                &&& v.keyspace@ == keyspace@ && v.name@ == name@ && v.base_table == plan.base_table
                &&& v.include_all_columns == plan.select_columns is None
                &&& string_views(v.columns@) == match plan.select_columns {
                    Some(sel) => column_selector_names(sel@),
                    None => seq![],
                }
                &&& v.where_clause == plan.where_clause
                &&& v.partition_key == plan.partition_key
                &&& v.clustering_key == plan.clustering_key
                &&& v.options == plan.options
                &&& final(self).keyspaces == old(self).keyspaces
                &&& final(self).tables == old(self).tables
                &&& final(self).types == old(self).types
                &&& final(self).triggers == old(self).triggers
                &&& final(self).indexes == old(self).indexes
            },
    {
        if find_keyspace(&self.keyspaces, keyspace).is_none() {
            return Err(ExecutorError::KeyspaceNotFound(string_of(keyspace)));
        }
        if find_view(&self.views, keyspace, name).is_some() {
            if if_not_exists {
                return Ok(SchemaOutcome::Void);
            }
            return Err(ExecutorError::InvalidQuery(message4("Materialized view '", keyspace, ".", name, "' already exists")));
        }
        if find_table(&self.tables, keyspace, plan.base_table.as_str()).is_none() {
            return Err(ExecutorError::TableNotFound(string_of(keyspace), plan.base_table));
        }
        let include_all_columns = plan.select_columns.is_none();
        let columns = match &plan.select_columns {
            Some(sel) => column_names(sel),
            None => Vec::new(),
        };
        let view = ViewEntry {
            keyspace: string_of(keyspace),
            name: string_of(name),
            base_table: plan.base_table,
            include_all_columns,
            columns,
            where_clause: plan.where_clause,
            partition_key: plan.partition_key,
            clustering_key: plan.clustering_key,
            options: plan.options,
        };
        let ghost pre_views = self.views@;
        self.views.push(view);
        proof {
            lemma_first_match(pre_views, view_named(keyspace@, name@));
            assert(self.views@ =~= pre_views.push(self.views@.last()));
            if keys_unique(pre_views, view_key()) {
                lemma_unique_push(pre_views, self.views@.last(), view_key());
            }
        }
        Ok(changed(ChangeType::Created, ChangeTarget::Table, keyspace, Some(name)))
    }

    /// `DROP MATERIALIZED VIEW`.
    pub fn drop_view(&mut self, keyspace: &str, name: &str, if_exists: bool) -> (r: Result<SchemaOutcome, ExecutorError>)
        ensures
            old(self).wf() ==> final(self).wf(),
            r is Ok ==> !final(self).has_view(keyspace@, name@),
            if !old(self).has_keyspace(keyspace@) {
                *final(self) == *old(self) && (r matches Err(ExecutorError::KeyspaceNotFound(k)) && k@ == keyspace@)
            } else if !old(self).has_view(keyspace@, name@) {
                &&& *final(self) == *old(self)
                &&& if if_exists {
                    r matches Ok(SchemaOutcome::Void)
                } else {
                    r matches Err(ExecutorError::TableNotFound(k, t)) && k@ == keyspace@ && t@ == name@
                }
            } else {
                &&& r matches Ok(o) && announces(o, ChangeType::Dropped, ChangeTarget::Table, keyspace@, Some(name@))
                &&& final(self).views@ == old(self).views@.filter(view_kept(keyspace@, Some(name@)))
                &&& final(self).keyspaces == old(self).keyspaces
                &&& final(self).tables == old(self).tables
                &&& final(self).types == old(self).types
                &&& final(self).triggers == old(self).triggers
                &&& final(self).indexes == old(self).indexes
            },
    {
        if find_keyspace(&self.keyspaces, keyspace).is_none() {
            return Err(ExecutorError::KeyspaceNotFound(string_of(keyspace)));
        }
        if find_view(&self.views, keyspace, name).is_none() {
            if if_exists {
                return Ok(SchemaOutcome::Void);
            }
            return Err(ExecutorError::TableNotFound(string_of(keyspace), string_of(name)));
        }
        let mut views: Vec<ViewEntry> = Vec::new();
        std::mem::swap(&mut views, &mut self.views);
        let m = view_marks(&views, keyspace, Some(name));
        let ghost before = views@;
        let ghost pre_views = views@;
        self.views = retain_unmarked(views, &m, Ghost(view_kept(keyspace@, Some(name@))));
        proof { if keys_unique(pre_views, view_key()) { lemma_unique_filter(pre_views, view_kept(keyspace@, Some(name@)), view_key()); } }
        proof { lemma_filtered_out(before, view_named(keyspace@, name@), view_kept(keyspace@, Some(name@))); }
        Ok(changed(ChangeType::Dropped, ChangeTarget::Table, keyspace, Some(name)))
    }

    /// `ALTER MATERIALIZED VIEW`: each given option replaces the view's option of that name.
    pub fn alter_view(&mut self, keyspace: &str, name: &str, options: Vec<(String, String)>)
        -> (r: Result<SchemaOutcome, ExecutorError>)
        ensures
            old(self).wf() ==> final(self).wf(),
            if !old(self).has_keyspace(keyspace@) {
                *final(self) == *old(self) && (r matches Err(ExecutorError::KeyspaceNotFound(k)) && k@ == keyspace@)
            } else {
                match first_match(old(self).views@, view_named(keyspace@, name@)) {
                    None => *final(self) == *old(self)
                        && (r matches Err(ExecutorError::TableNotFound(k, t)) && k@ == keyspace@ && t@ == name@),
                    Some(i) => {
                        let before = old(self).views@[i];
                        let after = final(self).views@[i];
                        &&& r matches Ok(o) && announces(o, ChangeType::Updated, ChangeTarget::Table, keyspace@, Some(name@))
                        &&& final(self).views@.len() == old(self).views@.len()
                        &&& forall|j: int| 0 <= j < old(self).views@.len() && j != i ==> final(self).views@[j] == old(self).views@[j]
                        &&& after == (ViewEntry { options: after.options, ..before })
                        &&& after.options@ == options_after(before.options@, options@)
                        &&& final(self).keyspaces == old(self).keyspaces
                        &&& final(self).tables == old(self).tables
                        &&& final(self).types == old(self).types
                        &&& final(self).triggers == old(self).triggers
                        &&& final(self).indexes == old(self).indexes
                    },
                }
            },
    {
        if find_keyspace(&self.keyspaces, keyspace).is_none() {
            return Err(ExecutorError::KeyspaceNotFound(string_of(keyspace)));
        }
        let i = match find_view(&self.views, keyspace, name) {
            Some(i) => i,
            None => return Err(ExecutorError::TableNotFound(string_of(keyspace), string_of(name))),
        };
        proof { lemma_first_match(self.views@, view_named(keyspace@, name@)); }
        let mut view = self.views.remove(i);
        let mut current: Vec<(String, String)> = Vec::new();
        std::mem::swap(&mut current, &mut view.options);
        view.options = apply_option_updates(current, options);
        self.views.insert(i, view);
        Ok(changed(ChangeType::Updated, ChangeTarget::Table, keyspace, Some(name)))
    }

    /// `CREATE TRIGGER` on a table.
    pub fn create_trigger(&mut self, keyspace: &str, table: &str, name: &str, class: &str, if_not_exists: bool)
        -> (r: Result<SchemaOutcome, ExecutorError>)
        ensures
            old(self).wf() ==> final(self).wf(),
            r is Ok ==> final(self).has_trigger(keyspace@, table@, name@),
            if !old(self).has_keyspace(keyspace@) {
                *final(self) == *old(self) && (r matches Err(ExecutorError::KeyspaceNotFound(k)) && k@ == keyspace@)
            } else if !old(self).has_table(keyspace@, table@) {
                *final(self) == *old(self)
                    && (r matches Err(ExecutorError::TableNotFound(k, t)) && k@ == keyspace@ && t@ == table@)
            } else if old(self).has_trigger(keyspace@, table@, name@) {
                &&& *final(self) == *old(self)
                &&& if if_not_exists {
                    r matches Ok(SchemaOutcome::Void)
                } else {
                    r matches Err(ExecutorError::InvalidQuery(m))
                        && m@ == "Trigger '"@ + name@ + "' already exists on "@ + keyspace@ + "."@ + table@
                }
            } else {
                let t = final(self).triggers@.last();
                &&& r matches Ok(o) && announces(o, ChangeType::Created, ChangeTarget::Table, keyspace@, Some(table@))
                &&& final(self).triggers@.len() == old(self).triggers@.len() + 1
                &&& final(self).triggers@.drop_last() == old(self).triggers@
                &&& t.keyspace@ == keyspace@ && t.table@ == table@ && t.name@ == name@ && t.class@ == class@
                &&& final(self).keyspaces == old(self).keyspaces
                &&& final(self).tables == old(self).tables
                &&& final(self).types == old(self).types
                &&& final(self).views == old(self).views
                &&& final(self).indexes == old(self).indexes
            },
    {
        if find_keyspace(&self.keyspaces, keyspace).is_none() {
            return Err(ExecutorError::KeyspaceNotFound(string_of(keyspace)));
        }
        if find_table(&self.tables, keyspace, table).is_none() {
            return Err(ExecutorError::TableNotFound(string_of(keyspace), string_of(table)));
        }
        if find_trigger(&self.triggers, keyspace, table, name).is_some() {
            if if_not_exists {
                return Ok(SchemaOutcome::Void);
            }
            let mut m = message2("Trigger '", name, "' already exists on ");
            push_str(&mut m, keyspace);
            push_str(&mut m, ".");
            push_str(&mut m, table);
            return Err(ExecutorError::InvalidQuery(m));
        }
        let ghost pre_triggers = self.triggers@;
        self.triggers.push(TriggerEntry {
            keyspace: string_of(keyspace),
            table: string_of(table),
            name: string_of(name),
            class: string_of(class),
        });
        proof {
            lemma_first_match(pre_triggers, trigger_named(keyspace@, table@, name@));
            assert(self.triggers@ =~= pre_triggers.push(self.triggers@.last()));
            if keys_unique(pre_triggers, trigger_key()) {
                lemma_unique_push(pre_triggers, self.triggers@.last(), trigger_key());
            }
        }
        Ok(changed(ChangeType::Created, ChangeTarget::Table, keyspace, Some(table)))
    }

    /// `DROP TRIGGER` from a table.
    pub fn drop_trigger(&mut self, keyspace: &str, table: &str, name: &str, if_exists: bool)
        -> (r: Result<SchemaOutcome, ExecutorError>)
        ensures
            old(self).wf() ==> final(self).wf(),
            r is Ok ==> !final(self).has_trigger(keyspace@, table@, name@),
            if !old(self).has_keyspace(keyspace@) {
                *final(self) == *old(self) && (r matches Err(ExecutorError::KeyspaceNotFound(k)) && k@ == keyspace@)
            } else if !old(self).has_table(keyspace@, table@) {
                *final(self) == *old(self)
                    && (r matches Err(ExecutorError::TableNotFound(k, t)) && k@ == keyspace@ && t@ == table@)
            } else if !old(self).has_trigger(keyspace@, table@, name@) {
                &&& *final(self) == *old(self)
                &&& if if_exists {
                    r matches Ok(SchemaOutcome::Void)
                } else {
                    r matches Err(ExecutorError::InvalidQuery(m))
                        && m@ == "Trigger '"@ + name@ + "' does not exist on "@ + keyspace@ + "."@ + table@
                }
            } else {
                &&& r matches Ok(o) && announces(o, ChangeType::Dropped, ChangeTarget::Table, keyspace@, Some(table@))
                &&& final(self).triggers@ == old(self).triggers@.filter(trigger_kept(keyspace@, Some(table@), Some(name@)))
                &&& final(self).keyspaces == old(self).keyspaces
                &&& final(self).tables == old(self).tables
                &&& final(self).types == old(self).types
                &&& final(self).views == old(self).views
                &&& final(self).indexes == old(self).indexes
            },
    {
        if find_keyspace(&self.keyspaces, keyspace).is_none() {
            return Err(ExecutorError::KeyspaceNotFound(string_of(keyspace)));
        }
        if find_table(&self.tables, keyspace, table).is_none() {
            return Err(ExecutorError::TableNotFound(string_of(keyspace), string_of(table)));
        }
        if find_trigger(&self.triggers, keyspace, table, name).is_none() {
            if if_exists {
                return Ok(SchemaOutcome::Void);
            }
            let mut m = message2("Trigger '", name, "' does not exist on ");
            push_str(&mut m, keyspace);
            push_str(&mut m, ".");
            push_str(&mut m, table);
            return Err(ExecutorError::InvalidQuery(m));
        }
        let mut triggers: Vec<TriggerEntry> = Vec::new();
        std::mem::swap(&mut triggers, &mut self.triggers);
        let m = trigger_marks(&triggers, keyspace, Some(table), Some(name));
        let ghost before = triggers@;
        let ghost pre_triggers = triggers@;
        self.triggers = retain_unmarked(triggers, &m, Ghost(trigger_kept(keyspace@, Some(table@), Some(name@))));
        proof { if keys_unique(pre_triggers, trigger_key()) { lemma_unique_filter(pre_triggers, trigger_kept(keyspace@, Some(table@), Some(name@)), trigger_key()); } }
        proof { lemma_filtered_out(before, trigger_named(keyspace@, table@, name@), trigger_kept(keyspace@, Some(table@), Some(name@))); }
        Ok(changed(ChangeType::Dropped, ChangeTarget::Table, keyspace, Some(table)))
    }
}

/// What `CREATE INDEX` defines besides the keyspace.
#[derive(Debug)]
pub struct IndexPlan {
    pub table: String,
    pub index_name: String,
    pub column: String,
    /// The implementing class of a custom index.
    pub custom_class: Option<String>,
    pub options: Vec<(String, String)>,
    pub if_not_exists: bool,
}

pub open spec fn class_has(class: Option<String>, part: Seq<char>) -> bool {
    match class {
        Some(c) => find(c@, part) is Some,
        None => false,
    }
}

/// A SASI index, which this server does not serve.
pub open spec fn is_sasi_class(class: Option<String>) -> bool {
    class_has(class, "SASIIndex"@)
}

/// A storage-attached index.
pub open spec fn is_sai_class(class: Option<String>) -> bool {
    class_has(class, "StorageAttachedIndex"@)
}

/// The options an index is stored with, read as a map: the statement's
/// options, with `target` set to the column and `class_name` to the class.
pub open spec fn index_option_value(plan: IndexPlan, key: Seq<char>) -> Option<Seq<char>> {
    if key == "class_name"@ && plan.custom_class is Some {
        Some(plan.custom_class->0@)
    } else if key == "target"@ {
        Some(plan.column@)
    } else {
        entry_value(plan.options@, key)
    }
}

fn class_contains(class: &Option<String>, part: &str) -> (r: bool)
    ensures
        r == class_has(*class, part@),
{
    match class {
        Some(c) => {
            let cs = chars_of(c.as_str());
            let ps = chars_of(part);
            contains_exec(&cs, &ps)
        },
        None => false,
    }
}

fn replace_option(options: Vec<(String, String)>, key: &str, value: String) -> (r: Vec<(String, String)>)
    ensures
        forall|k: Seq<char>| #[trigger] entry_value(r@, k) == if k == key@ { Some(value@) } else { entry_value(options@, k) },
{
    let mut r = remove_key(options, key);
    let entry = (string_of(key), value);
    let ghost before = options@;
    proof {
        assert forall|k: Seq<char>| #[trigger] entry_value(without_key(before, entry.0@).push(entry), k)
            == (if k == key@ { Some(entry.1@) } else { entry_value(before, k) }) by {
            lemma_value_after_replace(before, entry, k);
        }
    }
    r.push(entry);
    r
}

impl SchemaCatalog {
    /// The table of `keyspace` that has an index named `name`.
    pub fn find_indexed_table(&self, keyspace: &str, name: &str) -> (r: Option<String>)
        ensures
            match first_match(self.indexes@, index_named(keyspace@, name@)) {
                Some(i) => r matches Some(t) && t@ == self.indexes@[i].table@,
                None => r is None,
            },
    {
        let found = find_index_named(&self.indexes, keyspace, name);
        proof { lemma_first_match(self.indexes@, index_named(keyspace@, name@)); }
        match found {
            Some(i) => Some(string_of(self.indexes[i].table.as_str())),
            None => None,
        }
    }

    /// `CREATE INDEX` on a column of a table. `analyzer_check` is what
    /// validating the analyzer options of a storage-attached index gave.
    pub fn create_index(&mut self, keyspace: &str, plan: IndexPlan, analyzer_check: Result<(), String>)
        -> (r: Result<SchemaOutcome, ExecutorError>)
        ensures
            old(self).wf() ==> final(self).wf(),
            r is Ok ==> first_match(final(self).indexes@, index_named(keyspace@, plan.index_name@)) is Some,
            if is_sasi_class(plan.custom_class) {
                *final(self) == *old(self) && (r matches Err(ExecutorError::InvalidQuery(m))
                    && m@ == "SASI index support is not enabled (feature flag 'sasi' is disabled)"@)
            } else if is_sai_class(plan.custom_class) && analyzer_check is Err {
                *final(self) == *old(self) && (r matches Err(ExecutorError::InvalidQuery(m))
                    && m@ == "Invalid SAI analyzer options: "@ + analyzer_check->Err_0@)
            } else if !old(self).has_table(keyspace@, plan.table@) {
                *final(self) == *old(self)
                    && (r matches Err(ExecutorError::TableNotFound(k, t)) && k@ == keyspace@ && t@ == plan.table@)
            } else {
                match first_match(old(self).indexes@, index_conflict(keyspace@, plan.table@, plan.index_name@, plan.column@)) {
                    Some(i) => {
                        let other = old(self).indexes@[i];
                        &&& *final(self) == *old(self)
                        &&& if other.name@ == plan.index_name@ {
                            if plan.if_not_exists {
                                r matches Ok(SchemaOutcome::Void)
                            } else {
                                r matches Err(ExecutorError::InvalidQuery(m))
                                    && m@ == "Index '"@ + plan.index_name@ + "' already exists"@
                            }
                        } else {
                            r matches Err(ExecutorError::InvalidQuery(m))
                                && m@ == "An index already exists on column '"@ + plan.column@ + "' (index '"@ + other.name@ + "')"@
                        }
                    },
                    None => {
                        let e = final(self).indexes@.last();
                        &&& r matches Ok(o) && announces(o, ChangeType::Created, ChangeTarget::Index, keyspace@, Some(plan.index_name@))
                        &&& final(self).indexes@.len() == old(self).indexes@.len() + 1
                        &&& final(self).indexes@.drop_last() == old(self).indexes@
                        &&& e.keyspace@ == keyspace@ && e.table == plan.table && e.name == plan.index_name
                        &&& e.target@ == plan.column@
                        &&& e.kind == (if plan.custom_class is Some { IndexKind::Custom } else { IndexKind::Keys })
                        &&& e.index_type == (if is_sai_class(plan.custom_class) { IndexType::Sai } else { IndexType::Legacy })
                        &&& forall|k: Seq<char>| #[trigger] entry_value(e.options@, k) == index_option_value(plan, k)
                        &&& final(self).keyspaces == old(self).keyspaces
                        &&& final(self).tables == old(self).tables
                        &&& final(self).types == old(self).types
                        &&& final(self).views == old(self).views
                        &&& final(self).triggers == old(self).triggers
                    },
                }
            },
    {
        if class_contains(&plan.custom_class, "SASIIndex") {
            return Err(ExecutorError::InvalidQuery(string_of("SASI index support is not enabled (feature flag 'sasi' is disabled)")));
        }
        let is_sai = class_contains(&plan.custom_class, "StorageAttachedIndex");
        if is_sai {
            match analyzer_check {
                Err(e) => {
                    let mut m = string_of("Invalid SAI analyzer options: ");
                    push_str(&mut m, e.as_str());
                    return Err(ExecutorError::InvalidQuery(m));
                },
                Ok(()) => {},
            }
        }
        if find_table(&self.tables, keyspace, plan.table.as_str()).is_none() {
            return Err(ExecutorError::TableNotFound(string_of(keyspace), plan.table));
        }
        let conflict = find_index_conflict(&self.indexes, keyspace, plan.table.as_str(), plan.index_name.as_str(), plan.column.as_str());
        proof { lemma_first_match(self.indexes@, index_conflict(keyspace@, plan.table@, plan.index_name@, plan.column@)); }
        match conflict {
            Some(i) => {
                if str_eq(self.indexes[i].name.as_str(), plan.index_name.as_str()) {
                    if plan.if_not_exists {
                        proof { lemma_first_match(self.indexes@, index_named(keyspace@, plan.index_name@)); }
                        return Ok(SchemaOutcome::Void);
                    }
                    return Err(ExecutorError::InvalidQuery(message2("Index '", plan.index_name.as_str(), "' already exists")));
                }
                let m = message4(
                    "An index already exists on column '",
                    plan.column.as_str(),
                    "' (index '",
                    self.indexes[i].name.as_str(),
                    "')",
                );
                return Err(ExecutorError::InvalidQuery(m));
            },
            None => {},
        }
        let kind = if plan.custom_class.is_some() { IndexKind::Custom } else { IndexKind::Keys };
        let index_type = if is_sai { IndexType::Sai } else { IndexType::Legacy };
        let ghost p = plan;
        let IndexPlan { table, index_name, column, custom_class, options, if_not_exists: _ } = plan;
        let target = string_of(column.as_str());
        let options = replace_option(options, "target", column);
        let options = match custom_class {
            Some(class) => replace_option(options, "class_name", class),
            None => options,
        };
        proof {
            reveal_strlit("target");
            reveal_strlit("class_name");
            assert forall|k: Seq<char>| #[trigger] entry_value(options@, k) == index_option_value(p, k) by {
                if k == "class_name"@ {
                    assert(k[0] != "target"@[0]);
                }
            }
        }
        let outcome = changed(ChangeType::Created, ChangeTarget::Index, keyspace, Some(index_name.as_str()));
        let ghost before = self.indexes@;
        self.indexes.push(IndexEntry { keyspace: string_of(keyspace), table, name: index_name, target, kind, index_type, options });
        assert(self.indexes@.drop_last() =~= before);
        proof {
            lemma_first_match(before, index_conflict(keyspace@, p.table@, p.index_name@, p.column@));
            assert(self.indexes@ =~= before.push(self.indexes@.last()));
            if keys_unique(before, index_key()) {
                lemma_unique_push(before, self.indexes@.last(), index_key());
            }
        }
        Ok(outcome)
    }

    /// `DROP INDEX`: the index goes from the first table of the keyspace that has one of that name.
    pub fn drop_index(&mut self, keyspace: &str, name: &str, if_exists: bool) -> (r: Result<SchemaOutcome, ExecutorError>)
        ensures
            old(self).wf() ==> final(self).wf(),
            if !old(self).has_keyspace(keyspace@) {
                *final(self) == *old(self) && (r matches Err(ExecutorError::KeyspaceNotFound(k)) && k@ == keyspace@)
            } else {
                match first_match(old(self).indexes@, index_named(keyspace@, name@)) {
                    None => {
                        &&& *final(self) == *old(self)
                        &&& if if_exists {
                            r matches Ok(SchemaOutcome::Void)
                        } else {
                            r matches Err(ExecutorError::InvalidQuery(m))
                                && m@ == "Index '"@ + name@ + "' not found in keyspace '"@ + keyspace@ + "'"@
                        }
                    },
                    Some(i) => {
                        &&& r matches Ok(o) && announces(o, ChangeType::Dropped, ChangeTarget::Index, keyspace@, Some(name@))
                        &&& final(self).indexes@
                            == old(self).indexes@.filter(index_kept(keyspace@, Some(old(self).indexes@[i].table@), Some(name@)))
                        &&& first_match(final(self).indexes@, index_in(keyspace@, old(self).indexes@[i].table@, name@)) is None
                        &&& final(self).keyspaces == old(self).keyspaces
                        &&& final(self).tables == old(self).tables
                        &&& final(self).types == old(self).types
                        &&& final(self).views == old(self).views
                        &&& final(self).triggers == old(self).triggers
                    },
                }
            },
    {
        if find_keyspace(&self.keyspaces, keyspace).is_none() {
            return Err(ExecutorError::KeyspaceNotFound(string_of(keyspace)));
        }
        let table = match self.find_indexed_table(keyspace, name) {
            Some(t) => t,
            None => {
                if if_exists {
                    return Ok(SchemaOutcome::Void);
                }
                let m = message4("Index '", name, "' not found in keyspace '", keyspace, "'");
                return Err(ExecutorError::InvalidQuery(m));
            },
        };
        let mut indexes: Vec<IndexEntry> = Vec::new();
        std::mem::swap(&mut indexes, &mut self.indexes);
        let m = index_marks(&indexes, keyspace, Some(table.as_str()), Some(name));
        let ghost before = indexes@;
        let ghost pre_indexes = indexes@;
        self.indexes = retain_unmarked(indexes, &m, Ghost(index_kept(keyspace@, Some(table@), Some(name@))));
        proof { if keys_unique(pre_indexes, index_key()) { lemma_unique_filter(pre_indexes, index_kept(keyspace@, Some(table@), Some(name@)), index_key()); } }
        proof { lemma_filtered_out(before, index_in(keyspace@, table@, name@), index_kept(keyspace@, Some(table@), Some(name@))); }
        Ok(changed(ChangeType::Dropped, ChangeTarget::Index, keyspace, Some(name)))
    }
}

/// The keyspace a `DESCRIBE` names, `system` where it names none.
pub open spec fn described_keyspace(keyspace: Option<&str>) -> Seq<char> {
    match keyspace {
        Some(k) => k@,
        None => "system"@,
    }
}

impl SchemaCatalog {
    /// `DESCRIBE TYPE`: the statement that recreates the type.
    pub fn describe_type(&self, keyspace: Option<&str>, name: &str) -> (r: Result<String, ExecutorError>)
        ensures
            match first_match(self.types@, type_named(described_keyspace(keyspace), name@)) {
                Some(i) => r matches Ok(text) && text@ == type_ddl(self.types@[i]),
                None => r matches Err(ExecutorError::InvalidQuery(m))
                    && m@ == "Type '"@ + described_keyspace(keyspace) + "."@ + name@ + "' not found"@,
            },
    {
        let ks = match keyspace {
            Some(k) => k,
            None => "system",
        };
        let found = find_type(&self.types, ks, name);
        proof { lemma_first_match(self.types@, type_named(ks@, name@)); }
        match found {
            Some(i) => Ok(render_type_ddl(&self.types[i])),
            None => Err(ExecutorError::InvalidQuery(message4("Type '", ks, ".", name, "' not found"))),
        }
    }
}

} // verus!

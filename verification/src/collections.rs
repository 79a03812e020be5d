//! Collection assignments of `UPDATE`: appending to and prepending to
//! lists, adding to sets, putting into maps, and removing elements or keys.
//!
//! Elements are held by their serialized bytes, so two elements are equal
//! exactly when their bytes are.
use vstd::prelude::*;
use crate::error::ExecutorError;
use crate::relations::bytes_eq;
use crate::text::push_str;
use crate::types::CqlType;

verus! {

broadcast use vstd::seq_lib::group_seq_properties;

/// The value of a collection cell.
#[derive(Debug, PartialEq, Eq)]
pub enum CollectionValue {
    ListItems(Vec<Vec<u8>>),
    SetItems(Vec<Vec<u8>>),
    MapEntries(Vec<(Vec<u8>, Vec<u8>)>),
}

/// A collection cell as sequences of byte strings.
pub enum CollectionVal {
    ListItems(Seq<Seq<u8>>),
    SetItems(Seq<Seq<u8>>),
    MapEntries(Seq<(Seq<u8>, Seq<u8>)>),
}

/// The byte strings of a vector of elements.
pub open spec fn elements(v: Seq<Vec<u8>>) -> Seq<Seq<u8>> {
    v.map_values(|x: Vec<u8>| x@)
}

/// The byte strings of a vector of map entries.
pub open spec fn entries(v: Seq<(Vec<u8>, Vec<u8>)>) -> Seq<(Seq<u8>, Seq<u8>)> {
    v.map_values(|p: (Vec<u8>, Vec<u8>)| (p.0@, p.1@))
}

impl View for CollectionValue {
    type V = CollectionVal;

    open spec fn view(&self) -> CollectionVal {
        match self {
            CollectionValue::ListItems(v) => CollectionVal::ListItems(elements(v@)),
            CollectionValue::SetItems(v) => CollectionVal::SetItems(elements(v@)),
            CollectionValue::MapEntries(e) => CollectionVal::MapEntries(entries(e@)),
        }
    }
}

/// The change a collection assignment makes, with its operand already
/// converted to the collection's element (or key and value) bytes.
#[derive(Debug)]
pub enum CollectionChange {
    /// `col = col + [..]` or `col = col + {..}` on a list or set.
    AppendElements(Vec<Vec<u8>>),
    /// `col = col + {k: v, ..}` on a map.
    AppendEntries(Vec<(Vec<u8>, Vec<u8>)>),
    /// `col = [..] + col` on a list, or `{..} + col` on a set.
    PrependElements(Vec<Vec<u8>>),
    /// `col = {k: v, ..} + col` on a map.
    PrependEntries(Vec<(Vec<u8>, Vec<u8>)>),
    /// `col = col - ..`: the elements removed, or on a map the keys removed.
    Remove(Vec<Vec<u8>>),
    /// `col[key] = value` on a map.
    MapPut(Vec<u8>, Vec<u8>),
}

// ─── the operations, over byte strings ──────────────────────────────────

/// `values` with each element of `delta` that it does not hold yet appended, in order.
pub open spec fn unique_appended(values: Seq<Seq<u8>>, delta: Seq<Seq<u8>>) -> Seq<Seq<u8>>
    decreases delta.len(),
{
    if delta.len() == 0 {
        values
    } else {
        let prev = unique_appended(values, delta.drop_last());
        if prev.contains(delta.last()) {
            prev
        } else {
            prev.push(delta.last())
        }
    }
}

/// The position of the first entry with key `key`.
pub open spec fn first_key(entries: Seq<(Seq<u8>, Seq<u8>)>, key: Seq<u8>) -> Option<int>
    decreases entries.len(),
{
    if entries.len() == 0 {
        None
    } else {
        match first_key(entries.drop_last(), key) {
            Some(i) => Some(i),
            None => if entries.last().0 == key { Some(entries.len() - 1) } else { None },
        }
    }
}

/// `entries` with each entry of `delta` put in turn: its value replaces the
/// value of the first entry with its key, or the entry is appended.
pub open spec fn upserted(entries: Seq<(Seq<u8>, Seq<u8>)>, delta: Seq<(Seq<u8>, Seq<u8>)>) -> Seq<(Seq<u8>, Seq<u8>)>
    decreases delta.len(),
{
    if delta.len() == 0 {
        entries
    } else {
        let prev = upserted(entries, delta.drop_last());
        let (k, v) = delta.last();
        match first_key(prev, k) {
            Some(i) => prev.update(i, (prev[i].0, v)),
            None => prev.push((k, v)),
        }
    }
}

/// The elements of `values` that `delta` does not hold, in order.
pub open spec fn without(values: Seq<Seq<u8>>, delta: Seq<Seq<u8>>) -> Seq<Seq<u8>>
    decreases values.len(),
{
    if values.len() == 0 {
        seq![]
    } else {
        let prev = without(values.drop_last(), delta);
        if delta.contains(values.last()) { prev } else { prev.push(values.last()) }
    }
}

/// The entries of `entries` whose key `keys` does not hold, in order.
pub open spec fn without_keys(entries: Seq<(Seq<u8>, Seq<u8>)>, keys: Seq<Seq<u8>>) -> Seq<(Seq<u8>, Seq<u8>)>
    decreases entries.len(),
{
    if entries.len() == 0 {
        seq![]
    } else {
        let prev = without_keys(entries.drop_last(), keys);
        if keys.contains(entries.last().0) { prev } else { prev.push(entries.last()) }
    }
}

fn contains_element(values: &Vec<Vec<u8>>, x: &[u8]) -> (r: bool)
    ensures
        r == elements(values@).contains(x@),
{
    let mut i: usize = 0;
    while i < values.len()
        invariant
            i <= values@.len(),
            forall|j: int| 0 <= j < i ==> values@[j]@ != x@,
        decreases values.len() - i,
    {
        if bytes_eq(values[i].as_slice(), x) {
            assert(elements(values@)[i as int] == x@);
            return true;
        }
        i = i + 1;
    }
    proof {
        if elements(values@).contains(x@) {
            let j = choose|j: int| 0 <= j < elements(values@).len() && elements(values@)[j] == x@;
            assert(values@[j]@ == x@);
        }
    }
    false
}

fn first_key_exec(entries: &Vec<(Vec<u8>, Vec<u8>)>, key: &[u8]) -> (r: Option<usize>)
    ensures
        match r {
            Some(i) => first_key(crate::collections::entries(entries@), key@) == Some(i as int),
            None => first_key(crate::collections::entries(entries@), key@) is None,
        },
{
    let ghost es = crate::collections::entries(entries@);
    let mut i: usize = 0;
    while i < entries.len()
        invariant
            i <= entries@.len(),
            es == crate::collections::entries(entries@),
            first_key(es.subrange(0, i as int), key@) is None,
        decreases entries.len() - i,
    {
        assert(es.subrange(0, i + 1).drop_last() =~= es.subrange(0, i as int));
        if bytes_eq(entries[i].0.as_slice(), key) {
            proof { lemma_first_key_prefix(es, key@, i as int + 1); }
            return Some(i);
        }
        i = i + 1;
    }
    assert(es.subrange(0, es.len() as int) =~= es);
    None
}

/// A key found in a prefix is found at the same place in the whole sequence.
proof fn lemma_first_key_prefix(es: Seq<(Seq<u8>, Seq<u8>)>, key: Seq<u8>, n: int)
    requires
        0 <= n <= es.len(),
        first_key(es.subrange(0, n), key) is Some,
    ensures
        first_key(es, key) == first_key(es.subrange(0, n), key),
    decreases es.len() - n,
{
    if n < es.len() {
        assert(es.subrange(0, n + 1).drop_last() =~= es.subrange(0, n));
        lemma_first_key_prefix(es, key, n + 1);
    } else {
        assert(es.subrange(0, n) =~= es);
    }
}

/// A first key position lies inside the sequence and names an entry with that key.
proof fn lemma_first_key_found(es: Seq<(Seq<u8>, Seq<u8>)>, key: Seq<u8>)
    ensures
        match first_key(es, key) {
            Some(i) => 0 <= i < es.len() && es[i].0 == key && forall|j: int| 0 <= j < i ==> es[j].0 != key,
            None => forall|j: int| 0 <= j < es.len() ==> es[j].0 != key,
        },
    decreases es.len(),
{
    if es.len() > 0 {
        let d = es.drop_last();
        lemma_first_key_found(d, key);
        assert forall|j: int| 0 <= j < d.len() implies d[j] == es[j] by {}
    }
}

/// Appends to `values` each element of `delta` that it does not hold yet.
pub fn append_unique(values: &mut Vec<Vec<u8>>, delta: Vec<Vec<u8>>)
    ensures
        elements(final(values)@) == unique_appended(elements(old(values)@), elements(delta@)),
{
    let ghost start = elements(values@);
    let ghost d = elements(delta@);
    let mut i: usize = 0;
    while i < delta.len()
        invariant
            i <= delta@.len(),
            d == elements(delta@),
            elements(values@) == unique_appended(start, d.subrange(0, i as int)),
        decreases delta.len() - i,
    {
        assert(d.subrange(0, i + 1).drop_last() =~= d.subrange(0, i as int));
        assert(d.subrange(0, i + 1).last() == delta@[i as int]@);
        if !contains_element(values, delta[i].as_slice()) {
            let x = delta[i].clone();
            values.push(x);
            assert(elements(values@) =~= unique_appended(start, d.subrange(0, i as int)).push(delta@[i as int]@));
        }
        i = i + 1;
    }
    assert(d.subrange(0, d.len() as int) =~= d);
}

/// Puts each entry of `delta` into `entries`: its value replaces the value
/// of the first entry with the same key, or the entry is appended.
pub fn upsert_map_entries(entries: &mut Vec<(Vec<u8>, Vec<u8>)>, delta: Vec<(Vec<u8>, Vec<u8>)>)
    ensures
        crate::collections::entries(final(entries)@)
            == upserted(crate::collections::entries(old(entries)@), crate::collections::entries(delta@)),
{
    let ghost start = crate::collections::entries(entries@);
    let ghost d = crate::collections::entries(delta@);
    let mut i: usize = 0;
    while i < delta.len()
        invariant
            i <= delta@.len(),
            d == crate::collections::entries(delta@),
            crate::collections::entries(entries@) == upserted(start, d.subrange(0, i as int)),
        decreases delta.len() - i,
    {
        assert(d.subrange(0, i + 1).drop_last() =~= d.subrange(0, i as int));
        assert(d.subrange(0, i + 1).last() == (delta@[i as int].0@, delta@[i as int].1@));
        let ghost prev = crate::collections::entries(entries@);
        match first_key_exec(entries, delta[i].0.as_slice()) {
            Some(k) => {
                proof { lemma_first_key_found(prev, delta@[i as int].0@); }
                let key = entries[k].0.clone();
                let value = delta[i].1.clone();
                entries.set(k, (key, value));
                assert(crate::collections::entries(entries@) =~= prev.update(k as int, (prev[k as int].0, delta@[i as int].1@)));
            },
            None => {
                let key = delta[i].0.clone();
                let value = delta[i].1.clone();
                entries.push((key, value));
                assert(crate::collections::entries(entries@) =~= prev.push((delta@[i as int].0@, delta@[i as int].1@)));
            },
        }
        i = i + 1;
    }
    assert(d.subrange(0, d.len() as int) =~= d);
}

/// The elements of `values` that `delta` does not hold.
pub fn remove_elements(values: Vec<Vec<u8>>, delta: &Vec<Vec<u8>>) -> (r: Vec<Vec<u8>>)
    ensures
        elements(r@) == without(elements(values@), elements(delta@)),
{
    let ghost vs = elements(values@);
    let mut out: Vec<Vec<u8>> = Vec::new();
    let mut i: usize = 0;
    while i < values.len()
        invariant
            i <= values@.len(),
            vs == elements(values@),
            elements(out@) == without(vs.subrange(0, i as int), elements(delta@)),
        decreases values.len() - i,
    {
        assert(vs.subrange(0, i + 1).drop_last() =~= vs.subrange(0, i as int));
        assert(vs.subrange(0, i + 1).last() == values@[i as int]@);
        if !contains_element(delta, values[i].as_slice()) {
            let ghost prev = elements(out@);
            out.push(values[i].clone());
            assert(elements(out@) =~= prev.push(values@[i as int]@));
        }
        i = i + 1;
    }
    assert(vs.subrange(0, vs.len() as int) =~= vs);
    out
}

/// The entries of `entries` whose key `keys` does not hold.
pub fn remove_map_keys(entries: Vec<(Vec<u8>, Vec<u8>)>, keys: &Vec<Vec<u8>>) -> (r: Vec<(Vec<u8>, Vec<u8>)>)
    ensures
        crate::collections::entries(r@) == without_keys(crate::collections::entries(entries@), elements(keys@)),
{
    let ghost es = crate::collections::entries(entries@);
    let mut out: Vec<(Vec<u8>, Vec<u8>)> = Vec::new();
    let mut i: usize = 0;
    while i < entries.len()
        invariant
            i <= entries@.len(),
            es == crate::collections::entries(entries@),
            crate::collections::entries(out@) == without_keys(es.subrange(0, i as int), elements(keys@)),
        decreases entries.len() - i,
    {
        assert(es.subrange(0, i + 1).drop_last() =~= es.subrange(0, i as int));
        assert(es.subrange(0, i + 1).last() == (entries@[i as int].0@, entries@[i as int].1@));
        if !contains_element(keys, entries[i].0.as_slice()) {
            let ghost prev = crate::collections::entries(out@);
            let key = entries[i].0.clone();
            let value = entries[i].1.clone();
            out.push((key, value));
            assert(crate::collections::entries(out@) =~= prev.push((entries@[i as int].0@, entries@[i as int].1@)));
        }
        i = i + 1;
    }
    assert(es.subrange(0, es.len() as int) =~= es);
    out
}

// ─── the assignment ─────────────────────────────────────────────────────

/// The error of an assignment that does not fit the column's type.
pub open spec fn invalid_assignment_message(column: Seq<char>, column_type_name: Seq<char>) -> Seq<char> {
    "Collection assignment is not valid for column '"@ + column + "' of type "@ + column_type_name
}

fn invalid_collection_assignment(column: &str, column_type_name: &str) -> (r: ExecutorError)
    ensures
        r matches ExecutorError::InvalidQuery(m) && m@ == invalid_assignment_message(column@, column_type_name@),
{
    let mut m = String::new();
    push_str(&mut m, "Collection assignment is not valid for column '");
    push_str(&mut m, column);
    push_str(&mut m, "' of type ");
    push_str(&mut m, column_type_name);
    ExecutorError::InvalidQuery(m)
}

/// The existing value a collection assignment starts from: the stored one,
/// or an empty collection of the column's kind.
pub open spec fn existing_collection(current: Option<CollectionVal>, target: CqlType, column_type_name: Seq<char>) -> Result<CollectionVal, Seq<char>> {
    match current {
        Some(v) => Ok(v),
        None => match target {
            CqlType::ListOf(..) => Ok(CollectionVal::ListItems(seq![])),
            CqlType::SetOf(..) => Ok(CollectionVal::SetItems(seq![])),
            CqlType::MapOf(..) => Ok(CollectionVal::MapEntries(seq![])),
            _ => Err("Collection assignment is not valid for type "@ + column_type_name),
        },
    }
}

/// The existing value a collection assignment starts from; `column_type_name` is the
/// column type's CQL name.
pub fn decode_existing_collection(current: Option<CollectionValue>, target: &CqlType, column_type_name: &str) -> (r: Result<CollectionValue, ExecutorError>)
    ensures
        match existing_collection(match current { Some(v) => Some(v@), None => None }, *target, column_type_name@) {
            Ok(v) => r matches Ok(c) && c@ == v,
            Err(m) => r matches Err(ExecutorError::InvalidQuery(e)) && e@ == m,
        },
{
    match current {
        Some(v) => Ok(v),
        None => match target {
            CqlType::ListOf(..) => {
                let v: Vec<Vec<u8>> = Vec::new();
                assert(elements(v@) =~= seq![]);
                Ok(CollectionValue::ListItems(v))
            },
            CqlType::SetOf(..) => {
                let v: Vec<Vec<u8>> = Vec::new();
                assert(elements(v@) =~= seq![]);
                Ok(CollectionValue::SetItems(v))
            },
            CqlType::MapOf(..) => {
                let e: Vec<(Vec<u8>, Vec<u8>)> = Vec::new();
                assert(entries(e@) =~= seq![]);
                Ok(CollectionValue::MapEntries(e))
            },
            _ => {
                let mut m = String::new();
                push_str(&mut m, "Collection assignment is not valid for type ");
                push_str(&mut m, column_type_name);
                Err(ExecutorError::InvalidQuery(m))
            },
        },
    }
}

/// The change as sequences of byte strings.
pub enum ChangeVal {
    AppendElements(Seq<Seq<u8>>),
    AppendEntries(Seq<(Seq<u8>, Seq<u8>)>),
    PrependElements(Seq<Seq<u8>>),
    PrependEntries(Seq<(Seq<u8>, Seq<u8>)>),
    Remove(Seq<Seq<u8>>),
    MapPut(Seq<u8>, Seq<u8>),
}

impl View for CollectionChange {
    type V = ChangeVal;

    open spec fn view(&self) -> ChangeVal {
        match self {
            CollectionChange::AppendElements(d) => ChangeVal::AppendElements(elements(d@)),
            CollectionChange::AppendEntries(d) => ChangeVal::AppendEntries(entries(d@)),
            CollectionChange::PrependElements(d) => ChangeVal::PrependElements(elements(d@)),
            CollectionChange::PrependEntries(d) => ChangeVal::PrependEntries(entries(d@)),
            CollectionChange::Remove(d) => ChangeVal::Remove(elements(d@)),
            CollectionChange::MapPut(k, v) => ChangeVal::MapPut(k@, v@),
        }
    }
}

/// Whether a change's operand was converted for the column's type: elements
/// for a list or set, entries for a map.
pub open spec fn change_fits(target: CqlType, change: ChangeVal) -> bool {
    match change {
        ChangeVal::AppendElements(_) | ChangeVal::PrependElements(_) => !(target is MapOf),
        ChangeVal::AppendEntries(_) | ChangeVal::PrependEntries(_) => !(target is ListOf || target is SetOf),
        _ => true,
    }
}

/// The collection a change makes of the existing one, or `None` where the
/// change does not fit the column.
pub open spec fn changed(target: CqlType, change: ChangeVal, current: CollectionVal) -> Option<CollectionVal> {
    match (change, current) {
        (ChangeVal::AppendElements(d), CollectionVal::ListItems(v)) if target is ListOf => Some(CollectionVal::ListItems(v + d)),
        (ChangeVal::AppendElements(d), CollectionVal::SetItems(v)) if target is SetOf => Some(CollectionVal::SetItems(unique_appended(v, d))),
        (ChangeVal::AppendEntries(d), CollectionVal::MapEntries(e)) if target is MapOf => Some(CollectionVal::MapEntries(upserted(e, d))),
        (ChangeVal::PrependElements(d), CollectionVal::ListItems(v)) if target is ListOf => Some(CollectionVal::ListItems(d + v)),
        (ChangeVal::PrependElements(d), CollectionVal::SetItems(v)) if target is SetOf => Some(CollectionVal::SetItems(unique_appended(v, d))),
        (ChangeVal::PrependEntries(d), CollectionVal::MapEntries(e)) if target is MapOf => Some(CollectionVal::MapEntries(upserted(e, d))),
        (ChangeVal::Remove(d), CollectionVal::ListItems(v)) if target is ListOf => Some(CollectionVal::ListItems(without(v, d))),
        (ChangeVal::Remove(d), CollectionVal::SetItems(v)) if target is SetOf => Some(CollectionVal::SetItems(without(v, d))),
        (ChangeVal::Remove(d), CollectionVal::MapEntries(e)) if target is MapOf => Some(CollectionVal::MapEntries(without_keys(e, d))),
        (ChangeVal::MapPut(k, x), CollectionVal::MapEntries(e)) if target is MapOf => Some(CollectionVal::MapEntries(upserted(e, seq![(k, x)]))),
        _ => None,
    }
}

/// What a collection assignment to `column` stores, or the error's message.
pub open spec fn assignment_outcome(column: Seq<char>, target: CqlType, column_type_name: Seq<char>, change: ChangeVal,
    current: Option<CollectionVal>) -> Result<CollectionVal, Seq<char>> {
    match existing_collection(current, target, column_type_name) {
        Err(m) => Err(m),
        Ok(cur) => match changed(target, change, cur) {
            Some(v) => Ok(v),
            None => Err(invalid_assignment_message(column, column_type_name)),
        },
    }
}

/// Applies a collection assignment to `column` (of type `target`, whose CQL
/// name is `column_type_name`) to its stored value `current`, if it has one.
pub fn apply_collection_assignment(
    column: &str,
    target: &CqlType,
    column_type_name: &str,
    change: CollectionChange,
    current: Option<CollectionValue>,
) -> (r: Result<CollectionValue, ExecutorError>)
    requires
        change_fits(*target, change@),
    ensures
        match assignment_outcome(column@, *target, column_type_name@, change@, match current { Some(v) => Some(v@), None => None }) {
            Ok(v) => r matches Ok(c) && c@ == v,
            Err(m) => r matches Err(ExecutorError::InvalidQuery(e)) && e@ == m,
        },
{
    let cur = match decode_existing_collection(current, target, column_type_name) {
        Ok(c) => c,
        Err(e) => return Err(e),
    };
    let is_list = match target { CqlType::ListOf(..) => true, _ => false };
    let is_set = match target { CqlType::SetOf(..) => true, _ => false };
    let is_map = match target { CqlType::MapOf(..) => true, _ => false };
    match (change, cur) {
        (CollectionChange::AppendElements(d), CollectionValue::ListItems(mut v)) if is_list => {
            let ghost (v0, d0) = (elements(v@), elements(d@));
            let mut d = d;
            v.append(&mut d);
            assert(elements(v@) =~= v0 + d0);
            Ok(CollectionValue::ListItems(v))
        },
        (CollectionChange::AppendElements(d), CollectionValue::SetItems(mut v)) if is_set => {
            append_unique(&mut v, d);
            Ok(CollectionValue::SetItems(v))
        },
        (CollectionChange::AppendEntries(d), CollectionValue::MapEntries(mut e)) if is_map => {
            upsert_map_entries(&mut e, d);
            Ok(CollectionValue::MapEntries(e))
        },
        (CollectionChange::PrependElements(d), CollectionValue::ListItems(mut v)) if is_list => {
            let ghost (v0, d0) = (elements(v@), elements(d@));
            let mut d = d;
            d.append(&mut v);
            assert(elements(d@) =~= d0 + v0);
            Ok(CollectionValue::ListItems(d))
        },
        (CollectionChange::PrependElements(d), CollectionValue::SetItems(mut v)) if is_set => {
            append_unique(&mut v, d);
            Ok(CollectionValue::SetItems(v))
        },
        (CollectionChange::PrependEntries(d), CollectionValue::MapEntries(mut e)) if is_map => {
            upsert_map_entries(&mut e, d);
            Ok(CollectionValue::MapEntries(e))
        },
        (CollectionChange::Remove(d), CollectionValue::ListItems(v)) if is_list => {
            Ok(CollectionValue::ListItems(remove_elements(v, &d)))
        },
        (CollectionChange::Remove(d), CollectionValue::SetItems(v)) if is_set => {
            Ok(CollectionValue::SetItems(remove_elements(v, &d)))
        },
        (CollectionChange::Remove(d), CollectionValue::MapEntries(e)) if is_map => {
            Ok(CollectionValue::MapEntries(remove_map_keys(e, &d)))
        },
        (CollectionChange::MapPut(k, x), CollectionValue::MapEntries(mut e)) if is_map => {
            let ghost one = seq![(k@, x@)];
            let mut put: Vec<(Vec<u8>, Vec<u8>)> = Vec::new();
            put.push((k, x));
            assert(entries(put@) =~= one);
            upsert_map_entries(&mut e, put);
            Ok(CollectionValue::MapEntries(e))
        },
        _ => Err(invalid_collection_assignment(column, column_type_name)),
    }
}

// ─── laws ───────────────────────────────────────────────────────────────

/// Adding elements to a set keeps every element it had, adds every new
/// one, adds nothing else, and never makes an element occur twice.
pub proof fn lemma_set_add_is_union(values: Seq<Seq<u8>>, delta: Seq<Seq<u8>>)
    requires
        values.no_duplicates(),
    ensures
        unique_appended(values, delta).no_duplicates(),
        forall|x: Seq<u8>| #[trigger] unique_appended(values, delta).contains(x) <==> (values.contains(x) || delta.contains(x)),
    decreases delta.len(),
{
    if delta.len() > 0 {
        lemma_set_add_is_union(values, delta.drop_last());
        let prev = unique_appended(values, delta.drop_last());
        assert forall|x: Seq<u8>| #[trigger] unique_appended(values, delta).contains(x) <==> (values.contains(x) || delta.contains(x)) by {
            if delta.contains(x) && !delta.drop_last().contains(x) {
                assert(x == delta.last());
            }
            if delta.drop_last().contains(x) {
                let j = choose|j: int| 0 <= j < delta.drop_last().len() && delta.drop_last()[j] == x;
                assert(delta[j] == x);
            }
            if !prev.contains(delta.last()) {
                assert(prev.push(delta.last()).last() == delta.last());
                if prev.push(delta.last()).contains(x) && x != delta.last() {
                    let j = choose|j: int| 0 <= j < prev.push(delta.last()).len() && prev.push(delta.last())[j] == x;
                    assert(prev[j] == x);
                }
            }
        }
    }
}

/// After `col[k] = v`, looking `k` up gives `v`; the other keys keep their
/// values, and a map whose keys were distinct still has distinct keys.
pub proof fn lemma_map_put_then_lookup(e: Seq<(Seq<u8>, Seq<u8>)>, k: Seq<u8>, v: Seq<u8>)
    ensures
        ({
            let r = upserted(e, seq![(k, v)]);
            &&& first_key(r, k) matches Some(i) && r[i].1 == v
            &&& forall|k2: Seq<u8>| k2 != k ==> #[trigger] first_key(r, k2) == first_key(e, k2)
                && (first_key(e, k2) matches Some(i) ==> r[i] == e[i])
        }),
{
    let r = upserted(e, seq![(k, v)]);
    assert(seq![(k, v)].drop_last() =~= Seq::<(Seq<u8>, Seq<u8>)>::empty());
    assert(upserted(e, seq![(k, v)].drop_last()) == e);
    lemma_first_key_found(e, k);
    match first_key(e, k) {
        Some(i) => {
            assert(r == e.update(i, (e[i].0, v)));
            lemma_first_key_update(e, k, i, v);
        },
        None => {
            assert(r == e.push((k, v)));
            lemma_first_key_push(e, k, v);
        },
    }
    assert forall|k2: Seq<u8>| k2 != k implies #[trigger] first_key(r, k2) == first_key(e, k2)
        && (first_key(e, k2) matches Some(i) ==> r[i] == e[i]) by {
        lemma_first_key_found(e, k2);
    }
}

proof fn lemma_first_key_update(e: Seq<(Seq<u8>, Seq<u8>)>, k: Seq<u8>, i: int, v: Seq<u8>)
    requires
        first_key(e, k) == Some(i),
    ensures
        first_key(e.update(i, (e[i].0, v)), k) == Some(i),
        forall|k2: Seq<u8>| #[trigger] first_key(e.update(i, (e[i].0, v)), k2) == first_key(e, k2),
    decreases e.len(),
{
    lemma_first_key_found(e, k);
    let u = e.update(i, (e[i].0, v));
    assert forall|k2: Seq<u8>| #[trigger] first_key(u, k2) == first_key(e, k2) by {
        lemma_first_key_same_keys(e, u, k2);
    }
}

/// Two sequences with the same keys in the same places find every key at the same place.
proof fn lemma_first_key_same_keys(a: Seq<(Seq<u8>, Seq<u8>)>, b: Seq<(Seq<u8>, Seq<u8>)>, k: Seq<u8>)
    requires
        a.len() == b.len(),
        forall|j: int| 0 <= j < a.len() ==> #[trigger] a[j].0 == b[j].0,
    ensures
        first_key(a, k) == first_key(b, k),
    decreases a.len(),
{
    if a.len() > 0 {
        lemma_first_key_same_keys(a.drop_last(), b.drop_last(), k);
    }
}

proof fn lemma_first_key_push(e: Seq<(Seq<u8>, Seq<u8>)>, k: Seq<u8>, v: Seq<u8>)
    requires
        first_key(e, k) is None,
    ensures
        first_key(e.push((k, v)), k) == Some(e.len() as int),
        forall|k2: Seq<u8>| k2 != k ==> #[trigger] first_key(e.push((k, v)), k2) == first_key(e, k2),
{
    assert(e.push((k, v)).drop_last() =~= e);
    assert forall|k2: Seq<u8>| k2 != k implies #[trigger] first_key(e.push((k, v)), k2) == first_key(e, k2) by {
        assert(e.push((k, v)).drop_last() =~= e);
    }
}

/// Removing elements leaves exactly the elements that were not removed, in order.
pub proof fn lemma_removed_elements_are_gone(values: Seq<Seq<u8>>, delta: Seq<Seq<u8>>)
    ensures
        forall|x: Seq<u8>| #[trigger] without(values, delta).contains(x) <==> (values.contains(x) && !delta.contains(x)),
        without(values, delta).len() <= values.len(),
    decreases values.len(),
{
    if values.len() > 0 {
        lemma_removed_elements_are_gone(values.drop_last(), delta);
        let prev = without(values.drop_last(), delta);
        assert forall|x: Seq<u8>| #[trigger] without(values, delta).contains(x) <==> (values.contains(x) && !delta.contains(x)) by {
            if values.drop_last().contains(x) {
                let j = choose|j: int| 0 <= j < values.drop_last().len() && values.drop_last()[j] == x;
                assert(values[j] == x);
            }
            if values.contains(x) && x != values.last() {
                let j = choose|j: int| 0 <= j < values.len() && values[j] == x;
                assert(values.drop_last()[j] == x);
            }
            if !delta.contains(values.last()) && prev.push(values.last()).contains(x) && x != values.last() {
                let j = choose|j: int| 0 <= j < prev.push(values.last()).len() && prev.push(values.last())[j] == x;
                assert(prev[j] == x);
            }
        }
    }
}

/// Removing keys from a map leaves exactly the entries whose key was not removed.
pub proof fn lemma_removed_keys_are_gone(e: Seq<(Seq<u8>, Seq<u8>)>, keys: Seq<Seq<u8>>)
    ensures
        forall|p: (Seq<u8>, Seq<u8>)| #[trigger] without_keys(e, keys).contains(p) <==> (e.contains(p) && !keys.contains(p.0)),
    decreases e.len(),
{
    if e.len() > 0 {
        lemma_removed_keys_are_gone(e.drop_last(), keys);
        let prev = without_keys(e.drop_last(), keys);
        assert forall|p: (Seq<u8>, Seq<u8>)| #[trigger] without_keys(e, keys).contains(p) <==> (e.contains(p) && !keys.contains(p.0)) by {
            if e.drop_last().contains(p) {
                let j = choose|j: int| 0 <= j < e.drop_last().len() && e.drop_last()[j] == p;
                assert(e[j] == p);
            }
            if e.contains(p) && p != e.last() {
                let j = choose|j: int| 0 <= j < e.len() && e[j] == p;
                assert(e.drop_last()[j] == p);
            }
            if !keys.contains(e.last().0) && prev.push(e.last()).contains(p) && p != e.last() {
                let j = choose|j: int| 0 <= j < prev.push(e.last()).len() && prev.push(e.last())[j] == p;
                assert(prev[j] == p);
            }
        }
    }
}

} // verus!

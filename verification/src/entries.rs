//! Lists of `(key, value)` entries read as maps: the first entry of a key
//! gives its value.
use vstd::prelude::*;
use crate::text::str_eq;

verus! {

broadcast use vstd::seq_lib::group_seq_properties;

/// The value of the first entry with key `key`.
pub open spec fn entry_value(entries: Seq<(String, String)>, key: Seq<char>) -> Option<Seq<char>>
    decreases entries.len(),
{
    if entries.len() == 0 {
        None
    } else if entries[0].0@ == key {
        Some(entries[0].1@)
    } else {
        entry_value(entries.drop_first(), key)
    }
}

/// The entries without those of key `key`.
pub open spec fn without_key(entries: Seq<(String, String)>, key: Seq<char>) -> Seq<(String, String)> {
    entries.filter(|e: (String, String)| e.0@ != key)
}

/// Removes the entries of key `key`, keeping the others in order.
pub fn remove_key(entries: Vec<(String, String)>, key: &str) -> (r: Vec<(String, String)>)
    ensures
        r@ == without_key(entries@, key@),
{
    let ghost all = entries@;
    let mut kept: Vec<(String, String)> = Vec::new();
    let mut rest = entries;
    let ghost mut k: int = 0;
    while rest.len() > 0
        invariant
            0 <= k <= all.len(),
            rest@ == all.subrange(k, all.len() as int),
            kept@ == all.subrange(0, k).filter(|e: (String, String)| e.0@ != key@),
        decreases rest.len(),
    {
        let e = rest.remove(0);
        proof {
            reveal(Seq::filter);
            assert(all.subrange(0, k + 1).drop_last() =~= all.subrange(0, k));
            assert(e == all[k]);
        }
        if !str_eq(e.0.as_str(), key) {
            kept.push(e);
        }
        proof {
            k = k + 1;
            assert(rest@ =~= all.subrange(k, all.len() as int));
        }
    }
    assert(all.subrange(0, all.len() as int) =~= all);
    kept
}

/// The value of the first entry of key `key`.
pub fn find_value(entries: &Vec<(String, String)>, key: &str) -> (r: Option<String>)
    ensures
        match r {
            Some(c) => entry_value(entries@, key@) == Some(c@),
            None => entry_value(entries@, key@) is None,
        },
{
    let mut i: usize = 0;
    assert(entries@.subrange(0, entries@.len() as int) =~= entries@);
    while i < entries.len()
        invariant
            i <= entries@.len(),
            entry_value(entries@, key@) == entry_value(entries@.subrange(i as int, entries@.len() as int), key@),
        decreases entries.len() - i,
    {
        assert(entries@.subrange(i as int, entries@.len() as int).drop_first() =~= entries@.subrange(i + 1, entries@.len() as int));
        if str_eq(entries[i].0.as_str(), key) {
            return Some(entries[i].1.clone());
        }
        i = i + 1;
    }
    None
}

/// No value is found for a key whose entries were removed.
pub proof fn lemma_value_absent_after_removal(entries: Seq<(String, String)>, key: Seq<char>)
    ensures
        entry_value(without_key(entries, key), key) is None,
    decreases entries.len(),
{
    reveal(Seq::filter);
    if entries.len() > 0 {
        lemma_value_absent_after_removal(entries.drop_last(), key);
        let kept = without_key(entries.drop_last(), key);
        lemma_entry_value_push(kept, entries.last(), key);
    }
}

/// Appending an entry leaves an existing value as it was, and otherwise
/// makes the new entry the value of its key.
pub proof fn lemma_entry_value_push(entries: Seq<(String, String)>, entry: (String, String), key: Seq<char>)
    ensures
        entry_value(entries.push(entry), key) == match entry_value(entries, key) {
            Some(c) => Some(c),
            None => if entry.0@ == key { Some(entry.1@) } else { None },
        },
    decreases entries.len(),
{
    if entries.len() > 0 {
        assert(entries.push(entry).drop_first() =~= entries.drop_first().push(entry));
        lemma_entry_value_push(entries.drop_first(), entry, key);
    } else {
        assert(entries.push(entry).drop_first() =~= Seq::<(String, String)>::empty());
    }
}

/// Removing the entries of one key leaves the values of the others.
pub proof fn lemma_value_kept_after_removal(entries: Seq<(String, String)>, key: Seq<char>, other: Seq<char>)
    requires
        other != key,
    ensures
        entry_value(without_key(entries, key), other) == entry_value(entries, other),
    decreases entries.len(),
{
    reveal(Seq::filter);
    if entries.len() > 0 {
        let d = entries.drop_last();
        lemma_value_kept_after_removal(d, key, other);
        lemma_entry_value_push(without_key(d, key), entries.last(), other);
        lemma_entry_value_push(d, entries.last(), other);
        assert(d.push(entries.last()) =~= entries);
    }
}

/// Replacing the entries of a key by one entry gives it that value and
/// leaves the other keys' values.
pub proof fn lemma_value_after_replace(entries: Seq<(String, String)>, entry: (String, String), key: Seq<char>)
    ensures
        entry_value(without_key(entries, entry.0@).push(entry), key)
            == if key == entry.0@ { Some(entry.1@) } else { entry_value(entries, key) },
{
    let kept = without_key(entries, entry.0@);
    lemma_entry_value_push(kept, entry, key);
    if key == entry.0@ {
        lemma_value_absent_after_removal(entries, key);
    } else {
        lemma_value_kept_after_removal(entries, entry.0@, key);
    }
}

} // verus!

//! `DESCRIBE`: the CQL text that recreates the cluster's schema objects.
use vstd::prelude::*;
use crate::ddl::{
    join, push_joined, keyspace_ddl, type_ddl, function_ddl, aggregate_ddl, table_ddl, listing_order,
    render_keyspace_ddl, render_type_ddl, render_function_ddl, render_aggregate_ddl, render_table_ddl,
    KeyspaceDdl, TypeDdl, FunctionDdl, AggregateDdl, TableDdl,
};
use crate::error::ExecutorError;
use crate::schema::{first_match, lemma_first_match, lemma_first_match_prefix};
use crate::text::{push_str, str_eq};
use crate::tuples::string_views;

verus! {

broadcast use vstd::seq_lib::group_seq_properties;

/// What a `DESCRIBE` statement asks for.
#[derive(Debug)]
pub enum DescribeTarget {
    Cluster,
    FullSchema,
    Keyspace(String),
    /// A table, in the named keyspace or else in `system`.
    Table(Option<String>, String),
    Type(Option<String>, String),
    Function(Option<String>, String),
    Aggregate(Option<String>, String),
    /// Anything else, answered with the statement itself.
    Generic(String),
}

/// A keyspace with the types, functions, aggregates and tables it holds,
/// each list in the order the schema keeps it.
#[derive(Debug)]
pub struct KeyspaceListing {
    pub keyspace: KeyspaceDdl,
    pub types: Vec<TypeDdl>,
    pub functions: Vec<FunctionDdl>,
    pub aggregates: Vec<AggregateDdl>,
    pub tables: Vec<TableDdl>,
}

/// The keyspace a qualified name is looked up in: the one it names, else `system`.
pub open spec fn target_keyspace(keyspace: Option<String>) -> Seq<char> {
    match keyspace {
        Some(k) => k@,
        None => "system"@,
    }
}

pub open spec fn listing_named(name: Seq<char>) -> spec_fn(KeyspaceListing) -> bool {
    |k: KeyspaceListing| k.keyspace.name@ == name
}

pub open spec fn table_called(name: Seq<char>) -> spec_fn(TableDdl) -> bool {
    |t: TableDdl| t.name@ == name
}

pub open spec fn type_called(name: Seq<char>) -> spec_fn(TypeDdl) -> bool {
    |t: TypeDdl| t.name@ == name
}

pub open spec fn function_called(name: Seq<char>) -> spec_fn(FunctionDdl) -> bool {
    |f: FunctionDdl| f.name@ == name
}

pub open spec fn aggregate_called(name: Seq<char>) -> spec_fn(AggregateDdl) -> bool {
    |a: AggregateDdl| a.name@ == name
}

/// Whether `text` renders the table `t`, its columns listed in `DESCRIBE` order.
pub open spec fn table_rendered(t: TableDdl, text: Seq<char>) -> bool {
    exists|o: Seq<int>| listing_order(t.columns@, o) && text == table_ddl(t, o)
}

/// Whether `texts` renders each of `tables`.
pub open spec fn tables_rendered(tables: Seq<TableDdl>, texts: Seq<Seq<char>>) -> bool {
    &&& texts.len() == tables.len()
    &&& forall|i: int| 0 <= i < tables.len() ==> table_rendered(tables[i], #[trigger] texts[i])
}

/// The statements that recreate a keyspace and what it holds: the keyspace,
/// its types, functions, aggregates, then its tables (rendered as `tables`).
pub open spec fn listing_pieces(k: KeyspaceListing, tables: Seq<Seq<char>>) -> Seq<Seq<char>> {
    seq![keyspace_ddl(k.keyspace)]
        + Seq::new(k.types@.len(), |i: int| type_ddl(k.types@[i]))
        + Seq::new(k.functions@.len(), |i: int| function_ddl(k.functions@[i]))
        + Seq::new(k.aggregates@.len(), |i: int| aggregate_ddl(k.aggregates@[i]))
        + tables
}

/// Each of `parts` followed by `sep`.
pub open spec fn terminated(parts: Seq<Seq<char>>, sep: Seq<char>) -> Seq<char>
    decreases parts.len(),
{
    if parts.len() == 0 {
        seq![]
    } else {
        terminated(parts.drop_last(), sep) + parts.last() + sep
    }
}

/// Whether `texts[i]` renders the tables of keyspace `i`, for every keyspace.
pub open spec fn all_tables_rendered(keyspaces: Seq<KeyspaceListing>, texts: Seq<Seq<Seq<char>>>) -> bool {
    &&& texts.len() == keyspaces.len()
    &&& forall|i: int| 0 <= i < keyspaces.len() ==> tables_rendered(keyspaces[i].tables@, #[trigger] texts[i])
}

/// The whole schema: every statement of every keyspace, each followed by a blank line.
pub open spec fn schema_text(keyspaces: Seq<KeyspaceListing>, texts: Seq<Seq<Seq<char>>>) -> Seq<char>
    decreases keyspaces.len(),
{
    if keyspaces.len() == 0 {
        seq![]
    } else {
        schema_text(keyspaces.drop_last(), texts.drop_last())
            + terminated(listing_pieces(keyspaces.last(), texts.last()), "\n\n"@)
    }
}

/// What `DESCRIBE` answers for `target` over `keyspaces` (in the order the
/// schema keeps them): the text, or the error for an object that is not there.
pub open spec fn describes(keyspaces: Seq<KeyspaceListing>, target: DescribeTarget, r: Result<String, ExecutorError>) -> bool {
    match target {
        DescribeTarget::Cluster => r matches Ok(t) && t@ == "Cluster: cassandra\nPartitioner: Murmur3Partitioner"@,
        DescribeTarget::FullSchema => r matches Ok(t)
            && exists|texts: Seq<Seq<Seq<char>>>| all_tables_rendered(keyspaces, texts) && t@ == schema_text(keyspaces, texts),
        DescribeTarget::Keyspace(name) => match first_match(keyspaces, listing_named(name@)) {
            Some(i) => r matches Ok(t)
                && exists|texts: Seq<Seq<char>>| tables_rendered(keyspaces[i].tables@, texts)
                    && t@ == join(listing_pieces(keyspaces[i], texts), "\n\n"@),
            None => r matches Err(ExecutorError::InvalidQuery(m)) && m@ == "Keyspace '"@ + name@ + "' not found"@,
        },
        DescribeTarget::Table(ks, name) => {
            let found = match first_match(keyspaces, listing_named(target_keyspace(ks))) {
                Some(i) => match first_match(keyspaces[i].tables@, table_called(name@)) {
                    Some(j) => Some(keyspaces[i].tables@[j]),
                    None => None,
                },
                None => None,
            };
            match found {
                Some(t) => r matches Ok(text) && table_rendered(t, text@),
                None => r matches Err(ExecutorError::TableNotFound(k, n)) && k@ == target_keyspace(ks) && n@ == name@,
            }
        },
        DescribeTarget::Type(ks, name) => {
            let found = match first_match(keyspaces, listing_named(target_keyspace(ks))) {
                Some(i) => match first_match(keyspaces[i].types@, type_called(name@)) {
                    Some(j) => Some(keyspaces[i].types@[j]),
                    None => None,
                },
                None => None,
            };
            match found {
                Some(t) => r matches Ok(text) && text@ == type_ddl(t),
                None => r matches Err(ExecutorError::InvalidQuery(m))
                    && m@ == "Type '"@ + target_keyspace(ks) + "."@ + name@ + "' not found"@,
            }
        },
        DescribeTarget::Function(ks, name) => {
            let found = match first_match(keyspaces, listing_named(target_keyspace(ks))) {
                Some(i) => match first_match(keyspaces[i].functions@, function_called(name@)) {
                    Some(j) => Some(keyspaces[i].functions@[j]),
                    None => None,
                },
                None => None,
            };
            match found {
                Some(f) => r matches Ok(text) && text@ == function_ddl(f),
                None => r matches Err(ExecutorError::InvalidQuery(m))
                    && m@ == "Function '"@ + target_keyspace(ks) + "."@ + name@ + "' not found"@,
            }
        },
        DescribeTarget::Aggregate(ks, name) => {
            let found = match first_match(keyspaces, listing_named(target_keyspace(ks))) {
                Some(i) => match first_match(keyspaces[i].aggregates@, aggregate_called(name@)) {
                    Some(j) => Some(keyspaces[i].aggregates@[j]),
                    None => None,
                },
                None => None,
            };
            match found {
                Some(a) => r matches Ok(text) && text@ == aggregate_ddl(a),
                None => r matches Err(ExecutorError::InvalidQuery(m))
                    && m@ == "Aggregate '"@ + target_keyspace(ks) + "."@ + name@ + "' not found"@,
            }
        },
        DescribeTarget::Generic(name) => r matches Ok(t) && t@ == "DESCRIBE "@ + name@ + ";"@,
    }
}

fn find_listing(items: &[KeyspaceListing], name: &str) -> (r: Option<usize>)
    ensures
        match r {
            Some(i) => first_match(items@, listing_named(name@)) == Some(i as int),
            None => first_match(items@, listing_named(name@)) is None,
        },
{
    let mut i: usize = 0;
    while i < items.len()
        invariant
            i <= items@.len(),
            first_match(items@.subrange(0, i as int), listing_named(name@)) is None,
        decreases items.len() - i,
    {
        assert(items@.subrange(0, i + 1).drop_last() =~= items@.subrange(0, i as int));
        if str_eq(items[i].keyspace.name.as_str(), name) {
            proof { lemma_first_match_prefix(items@, listing_named(name@), i + 1); }
            return Some(i);
        }
        i = i + 1;
    }
    assert(items@.subrange(0, items@.len() as int) =~= items@);
    None
}

fn find_table(items: &[TableDdl], name: &str) -> (r: Option<usize>)
    ensures
        match r {
            Some(i) => first_match(items@, table_called(name@)) == Some(i as int),
            None => first_match(items@, table_called(name@)) is None,
        },
{
    let mut i: usize = 0;
    while i < items.len()
        invariant
            i <= items@.len(),
            first_match(items@.subrange(0, i as int), table_called(name@)) is None,
        decreases items.len() - i,
    {
        assert(items@.subrange(0, i + 1).drop_last() =~= items@.subrange(0, i as int));
        if str_eq(items[i].name.as_str(), name) {
            proof { lemma_first_match_prefix(items@, table_called(name@), i + 1); }
            return Some(i);
        }
        i = i + 1;
    }
    assert(items@.subrange(0, items@.len() as int) =~= items@);
    None
}

fn find_type(items: &[TypeDdl], name: &str) -> (r: Option<usize>)
    ensures
        match r {
            Some(i) => first_match(items@, type_called(name@)) == Some(i as int),
            None => first_match(items@, type_called(name@)) is None,
        },
{
    let mut i: usize = 0;
    while i < items.len()
        invariant
            i <= items@.len(),
            first_match(items@.subrange(0, i as int), type_called(name@)) is None,
        decreases items.len() - i,
    {
        assert(items@.subrange(0, i + 1).drop_last() =~= items@.subrange(0, i as int));
        if str_eq(items[i].name.as_str(), name) {
            proof { lemma_first_match_prefix(items@, type_called(name@), i + 1); }
            return Some(i);
        }
        i = i + 1;
    }
    assert(items@.subrange(0, items@.len() as int) =~= items@);
    None
}

fn find_function(items: &[FunctionDdl], name: &str) -> (r: Option<usize>)
    ensures
        match r {
            Some(i) => first_match(items@, function_called(name@)) == Some(i as int),
            None => first_match(items@, function_called(name@)) is None,
        },
{
    let mut i: usize = 0;
    while i < items.len()
        invariant
            i <= items@.len(),
            first_match(items@.subrange(0, i as int), function_called(name@)) is None,
        decreases items.len() - i,
    {
        assert(items@.subrange(0, i + 1).drop_last() =~= items@.subrange(0, i as int));
        if str_eq(items[i].name.as_str(), name) {
            proof { lemma_first_match_prefix(items@, function_called(name@), i + 1); }
            return Some(i);
        }
        i = i + 1;
    }
    assert(items@.subrange(0, items@.len() as int) =~= items@);
    None
}

fn find_aggregate(items: &[AggregateDdl], name: &str) -> (r: Option<usize>)
    ensures
        match r {
            Some(i) => first_match(items@, aggregate_called(name@)) == Some(i as int),
            None => first_match(items@, aggregate_called(name@)) is None,
        },
{
    let mut i: usize = 0;
    while i < items.len()
        invariant
            i <= items@.len(),
            first_match(items@.subrange(0, i as int), aggregate_called(name@)) is None,
        decreases items.len() - i,
    {
        assert(items@.subrange(0, i + 1).drop_last() =~= items@.subrange(0, i as int));
        if str_eq(items[i].name.as_str(), name) {
            proof { lemma_first_match_prefix(items@, aggregate_called(name@), i + 1); }
            return Some(i);
        }
        i = i + 1;
    }
    assert(items@.subrange(0, items@.len() as int) =~= items@);
    None
}

/// Appends each of `parts` followed by `sep` to `out`.
fn push_terminated(out: &mut String, parts: &[String], sep: &str)
    ensures
        final(out)@ == old(out)@ + terminated(string_views(parts@), sep@),
{
    let ghost start = out@;
    let ghost views = string_views(parts@);
    let mut i: usize = 0;
    while i < parts.len()
        invariant
            i <= parts@.len(),
            views == string_views(parts@),
            out@ == start + terminated(views.subrange(0, i as int), sep@),
        decreases parts.len() - i,
    {
        push_str(out, parts[i].as_str());
        push_str(out, sep);
        proof {
            let pre = views.subrange(0, i + 1);
            assert(pre.drop_last() =~= views.subrange(0, i as int));
            assert(pre.last() == parts@[i as int]@);
        }
        i = i + 1;
    }
    assert(views.subrange(0, views.len() as int) =~= views);
}

/// The statements that recreate a keyspace and what it holds, in `DESCRIBE` order.
fn listing_texts(k: &KeyspaceListing) -> (r: Vec<String>)
    ensures
        exists|texts: Seq<Seq<char>>| tables_rendered(k.tables@, texts) && string_views(r@) == listing_pieces(*k, texts),
{
    let mut out: Vec<String> = Vec::new();
    out.push(render_keyspace_ddl(&k.keyspace));
    let ghost head = seq![keyspace_ddl(k.keyspace)];
    assert(string_views(out@) =~= head);
    let mut i: usize = 0;
    while i < k.types.len()
        invariant
            i <= k.types@.len(),
            string_views(out@) == head + Seq::new(i as nat, |j: int| type_ddl(k.types@[j])),
        decreases k.types.len() - i,
    {
        let t = render_type_ddl(&k.types[i]);
        let ghost before = out@;
        out.push(t);
        assert(string_views(out@) =~= string_views(before).push(t@));
        i = i + 1;
        assert(string_views(out@) =~= head + Seq::new(i as nat, |j: int| type_ddl(k.types@[j])));
    }
    let ghost head = head + Seq::new(k.types@.len(), |j: int| type_ddl(k.types@[j]));
    let mut i: usize = 0;
    while i < k.functions.len()
        invariant
            i <= k.functions@.len(),
            string_views(out@) == head + Seq::new(i as nat, |j: int| function_ddl(k.functions@[j])),
        decreases k.functions.len() - i,
    {
        let t = render_function_ddl(&k.functions[i]);
        let ghost before = out@;
        out.push(t);
        assert(string_views(out@) =~= string_views(before).push(t@));
        i = i + 1;
        assert(string_views(out@) =~= head + Seq::new(i as nat, |j: int| function_ddl(k.functions@[j])));
    }
    let ghost head = head + Seq::new(k.functions@.len(), |j: int| function_ddl(k.functions@[j]));
    let mut i: usize = 0;
    while i < k.aggregates.len()
        invariant
            i <= k.aggregates@.len(),
            string_views(out@) == head + Seq::new(i as nat, |j: int| aggregate_ddl(k.aggregates@[j])),
        decreases k.aggregates.len() - i,
    {
        let t = render_aggregate_ddl(&k.aggregates[i]);
        let ghost before = out@;
        out.push(t);
        assert(string_views(out@) =~= string_views(before).push(t@));
        i = i + 1;
        assert(string_views(out@) =~= head + Seq::new(i as nat, |j: int| aggregate_ddl(k.aggregates@[j])));
    }
    let ghost head = head + Seq::new(k.aggregates@.len(), |j: int| aggregate_ddl(k.aggregates@[j]));
    let ghost mut texts: Seq<Seq<char>> = seq![];
    let mut i: usize = 0;
    while i < k.tables.len()
        invariant
            i <= k.tables@.len(),
            texts.len() == i,
            forall|j: int| 0 <= j < i ==> table_rendered(k.tables@[j], #[trigger] texts[j]),
            string_views(out@) == head + texts,
        decreases k.tables.len() - i,
    {
        let t = render_table_ddl(&k.tables[i]);
        let ghost before = out@;
        let ghost prior = texts;
        proof {
            texts = texts.push(t@);
            assert forall|j: int| 0 <= j < i + 1 implies table_rendered(k.tables@[j], #[trigger] texts[j]) by {
                if j < i {
                    assert(texts[j] == prior[j]);
                }
            }
        }
        out.push(t);
        assert(string_views(out@) =~= string_views(before).push(t@));
        i = i + 1;
        assert(string_views(out@) =~= head + texts);
    }
    assert(tables_rendered(k.tables@, texts));
    assert(string_views(out@) =~= listing_pieces(*k, texts));
    out
}

fn owned(s: &str) -> (r: String)
    ensures
        r@ == s@,
{
    let mut r = String::new();
    push_str(&mut r, s);
    r
}

fn not_found(what: &str, keyspace: &str, name: &str) -> (r: String)
    ensures
        r@ == what@ + keyspace@ + "."@ + name@ + "' not found"@,
{
    let mut m = String::new();
    push_str(&mut m, what);
    push_str(&mut m, keyspace);
    push_str(&mut m, ".");
    push_str(&mut m, name);
    push_str(&mut m, "' not found");
    m
}

fn keyspace_of(ks: &Option<String>) -> (r: &str)
    ensures
        r@ == target_keyspace(*ks),
{
    match ks {
        Some(k) => k.as_str(),
        None => "system",
    }
}

/// `DESCRIBE`: the CQL text that recreates what `target` names, from the
/// schema's keyspaces (and what each holds) in the order it keeps them.
pub fn describe(keyspaces: &[KeyspaceListing], target: &DescribeTarget) -> (r: Result<String, ExecutorError>)
    ensures
        describes(keyspaces@, *target, r),
{
    match target {
        DescribeTarget::Cluster => Ok(owned("Cluster: cassandra\nPartitioner: Murmur3Partitioner")),
        DescribeTarget::FullSchema => {
            let mut out = String::new();
            let ghost mut texts: Seq<Seq<Seq<char>>> = seq![];
            let mut i: usize = 0;
            assert(keyspaces@.subrange(0, 0) =~= Seq::<KeyspaceListing>::empty());
            while i < keyspaces.len()
                invariant
                    i <= keyspaces@.len(),
                    all_tables_rendered(keyspaces@.subrange(0, i as int), texts),
                    out@ == schema_text(keyspaces@.subrange(0, i as int), texts),
                decreases keyspaces.len() - i,
            {
                let pieces = listing_texts(&keyspaces[i]);
                let ghost tt = choose|tt: Seq<Seq<char>>| tables_rendered(keyspaces@[i as int].tables@, tt)
                    && string_views(pieces@) == listing_pieces(keyspaces@[i as int], tt);
                let ghost prior = texts;
                push_terminated(&mut out, pieces.as_slice(), "\n\n");
                proof {
                    texts = texts.push(tt);
                    let sub = keyspaces@.subrange(0, i + 1);
                    assert(sub.drop_last() =~= keyspaces@.subrange(0, i as int));
                    assert(texts.drop_last() =~= prior);
                    assert forall|j: int| 0 <= j < i + 1 implies tables_rendered(sub[j].tables@, #[trigger] texts[j]) by {
                        if j < i {
                            assert(texts[j] == prior[j]);
                            assert(sub[j] == keyspaces@.subrange(0, i as int)[j]);
                        }
                    }
                }
                i = i + 1;
            }
            assert(keyspaces@.subrange(0, keyspaces@.len() as int) =~= keyspaces@);
            Ok(out)
        },
        DescribeTarget::Keyspace(name) => {
            match find_listing(keyspaces, name.as_str()) {
                Some(i) => {
                    proof { lemma_first_match(keyspaces@, listing_named(name@)); }
                    let pieces = listing_texts(&keyspaces[i]);
                    let mut out = String::new();
                    push_joined(&mut out, pieces.as_slice(), "\n\n");
                    Ok(out)
                },
                None => {
                    let mut m = String::new();
                    push_str(&mut m, "Keyspace '");
                    push_str(&mut m, name.as_str());
                    push_str(&mut m, "' not found");
                    Err(ExecutorError::InvalidQuery(m))
                },
            }
        },
        DescribeTarget::Table(ks, name) => {
            let k = keyspace_of(ks);
            if let Some(i) = find_listing(keyspaces, k) {
                proof { lemma_first_match(keyspaces@, listing_named(k@)); }
                if let Some(j) = find_table(keyspaces[i].tables.as_slice(), name.as_str()) {
                    proof { lemma_first_match(keyspaces@[i as int].tables@, table_called(name@)); }
                    return Ok(render_table_ddl(&keyspaces[i].tables[j]));
                }
            }
            Err(ExecutorError::TableNotFound(owned(k), owned(name.as_str())))
        },
        DescribeTarget::Type(ks, name) => {
            let k = keyspace_of(ks);
            if let Some(i) = find_listing(keyspaces, k) {
                proof { lemma_first_match(keyspaces@, listing_named(k@)); }
                if let Some(j) = find_type(keyspaces[i].types.as_slice(), name.as_str()) {
                    proof { lemma_first_match(keyspaces@[i as int].types@, type_called(name@)); }
                    return Ok(render_type_ddl(&keyspaces[i].types[j]));
                }
            }
            Err(ExecutorError::InvalidQuery(not_found("Type '", k, name.as_str())))
        },
        DescribeTarget::Function(ks, name) => {
            let k = keyspace_of(ks);
            if let Some(i) = find_listing(keyspaces, k) {
                proof { lemma_first_match(keyspaces@, listing_named(k@)); }
                if let Some(j) = find_function(keyspaces[i].functions.as_slice(), name.as_str()) {
                    proof { lemma_first_match(keyspaces@[i as int].functions@, function_called(name@)); }
                    return Ok(render_function_ddl(&keyspaces[i].functions[j]));
                }
            }
            Err(ExecutorError::InvalidQuery(not_found("Function '", k, name.as_str())))
        },
        DescribeTarget::Aggregate(ks, name) => {
            let k = keyspace_of(ks);
            if let Some(i) = find_listing(keyspaces, k) {
                proof { lemma_first_match(keyspaces@, listing_named(k@)); }
                if let Some(j) = find_aggregate(keyspaces[i].aggregates.as_slice(), name.as_str()) {
                    proof { lemma_first_match(keyspaces@[i as int].aggregates@, aggregate_called(name@)); }
                    return Ok(render_aggregate_ddl(&keyspaces[i].aggregates[j]));
                }
            }
            Err(ExecutorError::InvalidQuery(not_found("Aggregate '", k, name.as_str())))
        },
        DescribeTarget::Generic(name) => {
            let mut out = String::new();
            push_str(&mut out, "DESCRIBE ");
            push_str(&mut out, name.as_str());
            push_str(&mut out, ";");
            Ok(out)
        },
    }
}

} // verus!

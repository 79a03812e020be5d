//! What `CREATE FUNCTION` and `CREATE AGGREGATE` do to a keyspace's
//! user-defined functions and aggregates: the checks they make against the
//! existing ones and what they store.
use vstd::prelude::*;
use crate::ddl::{join, push_joined};
use crate::error::ExecutorError;
use crate::text::{push_str, str_eq};
use crate::tuples::string_views;

verus! {

broadcast use vstd::seq_lib::group_seq_properties;

/// A user-defined function of a keyspace, by its signature `name(types)`.
#[derive(Debug)]
pub struct FunctionEntry {
    pub signature: String,
    pub return_type: String,
    pub called_on_null_input: bool,
}

/// A user-defined aggregate of a keyspace, by its signature `name(types)`.
#[derive(Debug)]
pub struct AggregateEntry {
    pub signature: String,
    pub return_type: String,
}

/// The user-defined functions and aggregates of a keyspace.
#[derive(Debug)]
pub struct KeyspaceRoutines {
    pub functions: Vec<FunctionEntry>,
    pub aggregates: Vec<AggregateEntry>,
}

/// What a `CREATE` statement does to the catalog.
#[derive(Debug, PartialEq, Eq)]
pub enum CatalogChange {
    /// `IF NOT EXISTS`, and the object exists: nothing changes.
    Unchanged,
    /// The object is stored with `return_type`; `replaces` is the return
    /// type of the object of the same signature it replaces, if any (the
    /// caller checks that the two are compatible).
    Store { return_type: String, replaces: Option<String> },
}

/// A statement's outcome as sequences: `None` for unchanged, else the stored
/// return type and the replaced one.
pub open spec fn change_view(c: CatalogChange) -> Option<(Seq<char>, Option<Seq<char>>)> {
    match c {
        CatalogChange::Unchanged => None,
        CatalogChange::Store { return_type, replaces } => Some((return_type@, match replaces {
            Some(t) => Some(t@),
            None => None,
        })),
    }
}

/// The first function with signature `sig`.
pub open spec fn function_named(fs: Seq<FunctionEntry>, sig: Seq<char>) -> Option<FunctionEntry>
    decreases fs.len(),
{
    if fs.len() == 0 {
        None
    } else if fs[0].signature@ == sig {
        Some(fs[0])
    } else {
        function_named(fs.drop_first(), sig)
    }
}

/// The return type of the first aggregate with signature `sig`.
pub open spec fn aggregate_named(aggs: Seq<AggregateEntry>, sig: Seq<char>) -> Option<Seq<char>>
    decreases aggs.len(),
{
    if aggs.len() == 0 {
        None
    } else if aggs[0].signature@ == sig {
        Some(aggs[0].return_type@)
    } else {
        aggregate_named(aggs.drop_first(), sig)
    }
}

fn find_function<'a>(fs: &'a [FunctionEntry], sig: &str) -> (r: Option<&'a FunctionEntry>)
    ensures
        match r {
            Some(f) => function_named(fs@, sig@) == Some(*f),
            None => function_named(fs@, sig@) is None,
        },
{
    let mut i: usize = 0;
    assert(fs@.subrange(0, fs@.len() as int) =~= fs@);
    while i < fs.len()
        invariant
            i <= fs@.len(),
            function_named(fs@, sig@) == function_named(fs@.subrange(i as int, fs@.len() as int), sig@),
        decreases fs.len() - i,
    {
        assert(fs@.subrange(i as int, fs@.len() as int).drop_first() =~= fs@.subrange(i + 1, fs@.len() as int));
        if str_eq(fs[i].signature.as_str(), sig) {
            return Some(&fs[i]);
        }
        i = i + 1;
    }
    None
}

fn find_aggregate<'a>(aggs: &'a [AggregateEntry], sig: &str) -> (r: Option<&'a String>)
    ensures
        match r {
            Some(t) => aggregate_named(aggs@, sig@) == Some(t@),
            None => aggregate_named(aggs@, sig@) is None,
        },
{
    let mut i: usize = 0;
    assert(aggs@.subrange(0, aggs@.len() as int) =~= aggs@);
    while i < aggs.len()
        invariant
            i <= aggs@.len(),
            aggregate_named(aggs@, sig@) == aggregate_named(aggs@.subrange(i as int, aggs@.len() as int), sig@),
        decreases aggs.len() - i,
    {
        assert(aggs@.subrange(i as int, aggs@.len() as int).drop_first() =~= aggs@.subrange(i + 1, aggs@.len() as int));
        if str_eq(aggs[i].signature.as_str(), sig) {
            return Some(&aggs[i].return_type);
        }
        i = i + 1;
    }
    None
}

fn invalid(parts: &[&str]) -> (r: ExecutorError)
    ensures
        r matches ExecutorError::InvalidQuery(m) && m@ == concat_views(parts@),
{
    let mut m = String::new();
    let mut i: usize = 0;
    while i < parts.len()
        invariant
            i <= parts@.len(),
            m@ == concat_views(parts@.subrange(0, i as int)),
        decreases parts.len() - i,
    {
        push_str(&mut m, parts[i]);
        i = i + 1;
        assert(parts@.subrange(0, i as int).drop_last() =~= parts@.subrange(0, i - 1));
    }
    assert(parts@.subrange(0, parts@.len() as int) =~= parts@);
    ExecutorError::InvalidQuery(m)
}

/// The texts of `parts` one after the other.
pub open spec fn concat_views(parts: Seq<&str>) -> Seq<char>
    decreases parts.len(),
{
    if parts.len() == 0 {
        seq![]
    } else {
        concat_views(parts.drop_last()) + parts.last()@
    }
}

/// A signature: a name and its argument types in parentheses.
pub open spec fn signature_of(name: Seq<char>, types: Seq<Seq<char>>) -> Seq<char> {
    name + "("@ + join(types, ", "@) + ")"@
}

// ─── CREATE FUNCTION ────────────────────────────────────────────────────

/// What `CREATE FUNCTION` does to a keyspace whose routines are `ks`, for a
/// function `name` with signature `signature` returning `return_type`, or
/// the message it is refused with.
pub open spec fn create_function_outcome(ks: KeyspaceRoutines, name: Seq<char>, signature: Seq<char>,
    return_type: Seq<char>, called_on_null_input: bool, if_not_exists: bool, or_replace: bool)
    -> Result<Option<(Seq<char>, Option<Seq<char>>)>, Seq<char>> {
    if aggregate_named(ks.aggregates@, signature) is Some {
        Err("Function '"@ + name + "' cannot replace an aggregate"@)
    } else {
        match function_named(ks.functions@, signature) {
            Some(existing) => if if_not_exists {
                Ok(None)
            } else if !or_replace {
                Err("Function '"@ + signature + "' already exists"@)
            } else if called_on_null_input != existing.called_on_null_input {
                Err("Function '"@ + name + "' must have "@
                    + (if called_on_null_input { "CALLED ON NULL INPUT"@ } else { "RETURNS NULL ON NULL INPUT"@ })
                    + " directive"@)
            } else {
                Ok(Some((return_type, Some(existing.return_type@))))
            },
            None => Ok(Some((return_type, None))),
        }
    }
}

/// Decides what `CREATE FUNCTION` does to the keyspace `keyspace` (its
/// routines `ks`, `None` when it does not exist): the function's name,
/// signature and canonical return type and its clauses are given.
pub fn decide_create_function(
    ks: Option<&KeyspaceRoutines>,
    keyspace: &str,
    name: &str,
    signature: &str,
    return_type: &str,
    called_on_null_input: bool,
    if_not_exists: bool,
    or_replace: bool,
) -> (r: Result<CatalogChange, ExecutorError>)
    ensures
        match ks {
            None => r matches Err(ExecutorError::KeyspaceNotFound(k)) && k@ == keyspace@,
            Some(ks) => match create_function_outcome(*ks, name@, signature@, return_type@,
                called_on_null_input, if_not_exists, or_replace) {
                Ok(c) => r matches Ok(change) && change_view(change) == c,
                Err(m) => r matches Err(ExecutorError::InvalidQuery(e)) && e@ == m,
            },
        },
{
    let ks = match ks {
        Some(k) => k,
        None => return Err(ExecutorError::KeyspaceNotFound(keyspace.to_string())),
    };
    if find_aggregate(ks.aggregates.as_slice(), signature).is_some() {
        let e = invalid(&["Function '", name, "' cannot replace an aggregate"]);
        proof { reveal_with_fuel(concat_views, 4); }
        return Err(e);
    }
    match find_function(ks.functions.as_slice(), signature) {
        Some(existing) => {
            if if_not_exists {
                return Ok(CatalogChange::Unchanged);
            }
            if !or_replace {
                let e = invalid(&["Function '", signature, "' already exists"]);
                proof { reveal_with_fuel(concat_views, 4); }
                return Err(e);
            }
            if called_on_null_input != existing.called_on_null_input {
                let directive = if called_on_null_input { "CALLED ON NULL INPUT" } else { "RETURNS NULL ON NULL INPUT" };
                let e = invalid(&["Function '", name, "' must have ", directive, " directive"]);
                proof { reveal_with_fuel(concat_views, 6); }
                return Err(e);
            }
            Ok(CatalogChange::Store { return_type: return_type.to_string(), replaces: Some(existing.return_type.clone()) })
        },
        None => Ok(CatalogChange::Store { return_type: return_type.to_string(), replaces: None }),
    }
}

// ─── CREATE AGGREGATE ───────────────────────────────────────────────────

/// Why `CREATE AGGREGATE` is refused: an `InvalidQuery` message, or the
/// error the validation of its `INITCOND` gave.
pub enum Refusal {
    Message(Seq<char>),
    Initcond,
}

/// What `CREATE AGGREGATE` does to a keyspace whose routines are `ks`, or
/// why it is refused. `initcond_ok` tells whether the `INITCOND`, when
/// there is one, is a valid value of the state type.
pub open spec fn create_aggregate_outcome(ks: KeyspaceRoutines, name: Seq<char>, arg_types: Seq<Seq<char>>,
    state_type: Seq<char>, sfunc: Seq<char>, finalfunc: Option<Seq<char>>, initcond: bool,
    initcond_ok: bool, if_not_exists: bool, or_replace: bool)
    -> Result<Option<(Seq<char>, Option<Seq<char>>)>, Refusal> {
    let sig = signature_of(name, arg_types);
    let state_sig = signature_of(sfunc, seq![state_type] + arg_types);
    let existing = aggregate_named(ks.aggregates@, sig);
    if function_named(ks.functions@, sig) is Some {
        Err(Refusal::Message("Aggregate '"@ + name + "' cannot replace a function"@))
    } else if existing is Some && if_not_exists {
        Ok(None)
    } else if existing is Some && !or_replace {
        Err(Refusal::Message("Aggregate '"@ + sig + "' already exists"@))
    } else {
        match function_named(ks.functions@, state_sig) {
            None => if aggregate_named(ks.aggregates@, state_sig) is Some {
                Err(Refusal::Message("State function "@ + state_sig + " isn't a scalar function"@))
            } else {
                Err(Refusal::Message("State function "@ + state_sig + " doesn't exist"@))
            },
            Some(sf) => if sf.return_type@ != state_type {
                Err(Refusal::Message("State function "@ + state_sig
                    + " return type must be the same as the first argument type - check STYPE, argument and return types"@))
            } else if !sf.called_on_null_input && !initcond {
                Err(Refusal::Message("Cannot create aggregate '"@ + name + "' without INITCOND because state function "@
                    + sfunc + " does not accept 'null' arguments"@))
            } else if initcond && !initcond_ok {
                Err(Refusal::Initcond)
            } else {
                match finalfunc {
                    None => Ok(Some((sf.return_type@, existing))),
                    Some(ff) => {
                        let final_sig = signature_of(ff, seq![state_type]);
                        match function_named(ks.functions@, final_sig) {
                            Some(f) => Ok(Some((f.return_type@, existing))),
                            None => if aggregate_named(ks.aggregates@, final_sig) is Some {
                                Err(Refusal::Message("Final function "@ + final_sig + " isn't a scalar function"@))
                            } else {
                                Err(Refusal::Message("Final function "@ + final_sig + " doesn't exist"@))
                            },
                        }
                    },
                }
            },
        }
    }
}

fn signature_exec(name: &str, types: &[String]) -> (r: String)
    ensures
        r@ == signature_of(name@, string_views(types@)),
{
    let mut out = String::new();
    push_str(&mut out, name);
    push_str(&mut out, "(");
    push_joined(&mut out, types, ", ");
    push_str(&mut out, ")");
    out
}

/// Decides what `CREATE AGGREGATE` does to the keyspace `keyspace` (its
/// routines `ks`, `None` when it does not exist): the aggregate's name, its
/// canonical argument and state types, its state and final functions and
/// whether it has an `INITCOND` are given, with `initcond_check`, what
/// validating that `INITCOND` against the state type gave.
pub fn decide_create_aggregate(
    ks: Option<&KeyspaceRoutines>,
    keyspace: &str,
    name: &str,
    arg_types: &[String],
    state_type: &str,
    sfunc: &str,
    finalfunc: Option<&str>,
    initcond: bool,
    initcond_check: Result<(), ExecutorError>,
    if_not_exists: bool,
    or_replace: bool,
) -> (r: Result<CatalogChange, ExecutorError>)
    ensures
        match ks {
            None => r matches Err(ExecutorError::KeyspaceNotFound(k)) && k@ == keyspace@,
            Some(ks) => match create_aggregate_outcome(*ks, name@, string_views(arg_types@), state_type@, sfunc@,
                match finalfunc { Some(f) => Some(f@), None => None }, initcond, initcond_check is Ok,
                if_not_exists, or_replace) {
                Ok(c) => r matches Ok(change) && change_view(change) == c,
                Err(Refusal::Message(m)) => r matches Err(ExecutorError::InvalidQuery(e)) && e@ == m,
                Err(Refusal::Initcond) => r matches Err(e) && initcond_check == Err::<(), ExecutorError>(e),
            },
        },
{
    let ks = match ks {
        Some(k) => k,
        None => return Err(ExecutorError::KeyspaceNotFound(keyspace.to_string())),
    };
    let sig = signature_exec(name, arg_types);
    let existing = find_aggregate(ks.aggregates.as_slice(), sig.as_str());
    if find_function(ks.functions.as_slice(), sig.as_str()).is_some() {
        let e = invalid(&["Aggregate '", name, "' cannot replace a function"]);
        proof { reveal_with_fuel(concat_views, 4); }
        return Err(e);
    }
    if existing.is_some() {
        if if_not_exists {
            return Ok(CatalogChange::Unchanged);
        }
        if !or_replace {
            let e = invalid(&["Aggregate '", sig.as_str(), "' already exists"]);
            proof { reveal_with_fuel(concat_views, 4); }
            return Err(e);
        }
    }
    let mut state_args: Vec<String> = Vec::new();
    state_args.push(state_type.to_string());
    let mut i: usize = 0;
    while i < arg_types.len()
        invariant
            i <= arg_types@.len(),
            string_views(state_args@) == seq![state_type@] + string_views(arg_types@).subrange(0, i as int),
        decreases arg_types.len() - i,
    {
        let ghost prev = string_views(state_args@);
        let a = arg_types[i].clone();
        assert(a@ == arg_types@[i as int]@);
        state_args.push(a);
        assert(string_views(state_args@) =~= prev.push(arg_types@[i as int]@));
        i = i + 1;
        assert(string_views(state_args@) =~= seq![state_type@] + string_views(arg_types@).subrange(0, i as int));
    }
    assert(string_views(arg_types@).subrange(0, arg_types@.len() as int) =~= string_views(arg_types@));
    let state_sig = signature_exec(sfunc, state_args.as_slice());
    let sf = match find_function(ks.functions.as_slice(), state_sig.as_str()) {
        Some(f) => f,
        None => {
            if find_aggregate(ks.aggregates.as_slice(), state_sig.as_str()).is_some() {
                let e = invalid(&["State function ", state_sig.as_str(), " isn't a scalar function"]);
                proof { reveal_with_fuel(concat_views, 4); }
                return Err(e);
            }
            let e = invalid(&["State function ", state_sig.as_str(), " doesn't exist"]);
            proof { reveal_with_fuel(concat_views, 4); }
            return Err(e);
        },
    };
    if !str_eq(sf.return_type.as_str(), state_type) {
        let e = invalid(&["State function ", state_sig.as_str(),
            " return type must be the same as the first argument type - check STYPE, argument and return types"]);
        proof { reveal_with_fuel(concat_views, 4); }
        return Err(e);
    }
    if !sf.called_on_null_input && !initcond {
        let e = invalid(&["Cannot create aggregate '", name, "' without INITCOND because state function ", sfunc,
            " does not accept 'null' arguments"]);
        proof { reveal_with_fuel(concat_views, 6); }
        return Err(e);
    }
    if initcond {
        if let Err(e) = initcond_check {
            return Err(e);
        }
    }
    let replaces = match existing {
        Some(t) => Some(t.clone()),
        None => None,
    };
    match finalfunc {
        None => Ok(CatalogChange::Store { return_type: sf.return_type.clone(), replaces }),
        Some(ff) => {
            let mut final_args: Vec<String> = Vec::new();
            final_args.push(state_type.to_string());
            assert(string_views(final_args@) =~= seq![state_type@]);
            let final_sig = signature_exec(ff, final_args.as_slice());
            match find_function(ks.functions.as_slice(), final_sig.as_str()) {
                Some(f) => Ok(CatalogChange::Store { return_type: f.return_type.clone(), replaces }),
                None => {
                    if find_aggregate(ks.aggregates.as_slice(), final_sig.as_str()).is_some() {
                        let e = invalid(&["Final function ", final_sig.as_str(), " isn't a scalar function"]);
                        proof { reveal_with_fuel(concat_views, 4); }
                        return Err(e);
                    }
                    let e = invalid(&["Final function ", final_sig.as_str(), " doesn't exist"]);
                    proof { reveal_with_fuel(concat_views, 4); }
                    Err(e)
                },
            }
        },
    }
}

// ─── replacing ──────────────────────────────────────────────────────────

/// Refuses to replace a function whose return type `existing` the new
/// return type `new_type` is not compatible with; `compatible` tells
/// whether it is.
pub fn check_function_replacement(name: &str, new_type: &str, existing: &str, compatible: bool) -> (r: Result<(), ExecutorError>)
    ensures
        compatible ==> r is Ok,
        !compatible ==> (r matches Err(ExecutorError::InvalidQuery(m)) && m@ == "Cannot replace function '"@ + name@
            + "', the new return type "@ + new_type@ + " is not compatible with the return type "@ + existing@
            + " of existing function"@),
{
    if compatible {
        return Ok(());
    }
    let e = invalid(&["Cannot replace function '", name, "', the new return type ", new_type,
        " is not compatible with the return type ", existing, " of existing function"]);
    proof { reveal_with_fuel(concat_views, 8); }
    Err(e)
}

/// Refuses to replace an aggregate whose return type `existing` the new
/// return type `new_type` is not compatible with; `compatible` tells
/// whether it is.
pub fn check_aggregate_replacement(name: &str, new_type: &str, existing: &str, compatible: bool) -> (r: Result<(), ExecutorError>)
    ensures
        compatible ==> r is Ok,
        !compatible ==> (r matches Err(ExecutorError::InvalidQuery(m)) && m@ == "Cannot replace aggregate '"@ + name@
            + "', the new return type "@ + new_type@ + " isn't compatible with the return type "@ + existing@
            + " of existing function"@),
{
    if compatible {
        return Ok(());
    }
    let e = invalid(&["Cannot replace aggregate '", name, "', the new return type ", new_type,
        " isn't compatible with the return type ", existing, " of existing function"]);
    proof { reveal_with_fuel(concat_views, 8); }
    Err(e)
}

// ─── DROP FUNCTION / DROP AGGREGATE ─────────────────────────────────────

/// Decides `DROP FUNCTION` of the function with signature `signature` in
/// `keyspace` (its routines `ks`): `true` to drop it, `false` when it does
/// not exist and `IF EXISTS` was given.
pub fn decide_drop_function(ks: Option<&KeyspaceRoutines>, keyspace: &str, signature: &str, if_exists: bool) -> (r: Result<bool, ExecutorError>)
    ensures
        match ks {
            None => r matches Err(ExecutorError::KeyspaceNotFound(k)) && k@ == keyspace@,
            Some(ks) => if function_named(ks.functions@, signature@) is Some {
                r == Ok::<bool, ExecutorError>(true)
            } else if if_exists {
                r == Ok::<bool, ExecutorError>(false)
            } else {
                r matches Err(ExecutorError::InvalidQuery(m))
                    && m@ == "Function '"@ + keyspace@ + "."@ + signature@ + "' does not exist"@
            },
        },
{
    let ks = match ks {
        Some(k) => k,
        None => return Err(ExecutorError::KeyspaceNotFound(keyspace.to_string())),
    };
    if find_function(ks.functions.as_slice(), signature).is_some() {
        return Ok(true);
    }
    if if_exists {
        return Ok(false);
    }
    let e = invalid(&["Function '", keyspace, ".", signature, "' does not exist"]);
    proof { reveal_with_fuel(concat_views, 6); }
    Err(e)
}

/// Decides `DROP AGGREGATE` of the aggregate with signature `signature` in
/// `keyspace` (its routines `ks`): `true` to drop it, `false` when it does
/// not exist and `IF EXISTS` was given.
pub fn decide_drop_aggregate(ks: Option<&KeyspaceRoutines>, keyspace: &str, signature: &str, if_exists: bool) -> (r: Result<bool, ExecutorError>)
    ensures
        match ks {
            None => r matches Err(ExecutorError::KeyspaceNotFound(k)) && k@ == keyspace@,
            Some(ks) => if aggregate_named(ks.aggregates@, signature@) is Some {
                r == Ok::<bool, ExecutorError>(true)
            } else if if_exists {
                r == Ok::<bool, ExecutorError>(false)
            } else {
                r matches Err(ExecutorError::InvalidQuery(m))
                    && m@ == "Aggregate '"@ + keyspace@ + "."@ + signature@ + "' does not exist"@
            },
        },
{
    let ks = match ks {
        Some(k) => k,
        None => return Err(ExecutorError::KeyspaceNotFound(keyspace.to_string())),
    };
    if find_aggregate(ks.aggregates.as_slice(), signature).is_some() {
        return Ok(true);
    }
    if if_exists {
        return Ok(false);
    }
    let e = invalid(&["Aggregate '", keyspace, ".", signature, "' does not exist"]);
    proof { reveal_with_fuel(concat_views, 6); }
    Err(e)
}

} // verus!

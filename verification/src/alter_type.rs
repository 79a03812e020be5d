//! What `ALTER TYPE` does to a user-defined type: adding, renaming and
//! retyping fields, and setting the comments of the type and its fields.
use vstd::prelude::*;
use crate::chars::{eq_ignore_case, eq_ignore_case_exec};
use crate::ddl::TypeDdl;
use crate::entries::{entry_value, find_value, lemma_entry_value_push, lemma_value_absent_after_removal, remove_key, without_key};
use crate::error::ExecutorError;
use crate::text::{chars_of, push_str, str_eq};
use crate::types::{render_ast_cql_type_name, type_name_text, CqlTypeName};

verus! {

broadcast use vstd::seq_lib::group_seq_properties;

/// A change `ALTER TYPE` makes.
#[derive(Debug)]
pub enum AlterTypeOp {
    AddField(String, CqlTypeName),
    RenameField(String, String),
    AlterFieldType(String, CqlTypeName),
    CommentType(String),
    CommentField(String, String),
}

/// The position of the first field whose name equals `name` in any letter case.
pub open spec fn field_position(names: Seq<String>, name: Seq<char>) -> Option<int>
    decreases names.len(),
{
    if names.len() == 0 {
        None
    } else {
        match field_position(names.drop_last(), name) {
            Some(i) => Some(i),
            None => if eq_ignore_case(names.last()@, name) { Some(names.len() - 1) } else { None },
        }
    }
}

proof fn lemma_field_position_prefix(names: Seq<String>, name: Seq<char>, n: int)
    requires
        0 <= n <= names.len(),
        field_position(names.subrange(0, n), name) is Some,
    ensures
        field_position(names, name) == field_position(names.subrange(0, n), name),
    decreases names.len() - n,
{
    if n < names.len() {
        assert(names.subrange(0, n + 1).drop_last() =~= names.subrange(0, n));
        lemma_field_position_prefix(names, name, n + 1);
    } else {
        assert(names.subrange(0, n) =~= names);
    }
}

/// A found position lies inside the names and names a matching field.
pub proof fn lemma_field_position_found(names: Seq<String>, name: Seq<char>)
    ensures
        field_position(names, name) matches Some(i) ==> 0 <= i < names.len() && eq_ignore_case(names[i]@, name),
    decreases names.len(),
{
    if names.len() > 0 {
        lemma_field_position_found(names.drop_last(), name);
    }
}

fn find_field(names: &Vec<String>, name: &str) -> (r: Option<usize>)
    ensures
        match r {
            Some(i) => i < names@.len() && field_position(names@, name@) == Some(i as int),
            None => field_position(names@, name@) is None,
        },
{
    let n = chars_of(name);
    let mut i: usize = 0;
    while i < names.len()
        invariant
            i <= names@.len(),
            n@ == name@,
            field_position(names@.subrange(0, i as int), name@) is None,
        decreases names.len() - i,
    {
        assert(names@.subrange(0, i + 1).drop_last() =~= names@.subrange(0, i as int));
        let c = chars_of(names[i].as_str());
        if eq_ignore_case_exec(&c, &n) {
            proof { lemma_field_position_prefix(names@, name@, i as int + 1); }
            return Some(i);
        }
        i = i + 1;
    }
    assert(names@.subrange(0, names@.len() as int) =~= names@);
    None
}

fn type_error(prefix: &str, field: &str, middle: &str, keyspace: &str, name: &str) -> (r: ExecutorError)
    ensures
        r matches ExecutorError::InvalidQuery(m) && m@ == prefix@ + field@ + middle@ + keyspace@ + "."@ + name@ + "'"@,
{
    let mut m = String::new();
    push_str(&mut m, prefix);
    push_str(&mut m, field);
    push_str(&mut m, middle);
    push_str(&mut m, keyspace);
    push_str(&mut m, ".");
    push_str(&mut m, name);
    push_str(&mut m, "'");
    ExecutorError::InvalidQuery(m)
}

/// The message of a field name already in use.
pub open spec fn field_exists_message(field: Seq<char>, keyspace: Seq<char>, name: Seq<char>) -> Seq<char> {
    "Field '"@ + field + "' already exists in type '"@ + keyspace + "."@ + name + "'"@
}

/// The message of a field the type does not have.
pub open spec fn field_missing_message(field: Seq<char>, keyspace: Seq<char>, name: Seq<char>) -> Seq<char> {
    "Field '"@ + field + "' does not exist in type '"@ + keyspace + "."@ + name + "'"@
}

/// What `alter_user_type` does: `after` is `before` with the change `op`
/// made, or, where `r` is an error, `before` itself.
pub open spec fn alter_user_type_spec(before: TypeDdl, op: AlterTypeOp, after: TypeDdl, r: Result<(), ExecutorError>) -> bool {
    &&& after.keyspace == before.keyspace
    &&& after.name == before.name
    &&& r is Err ==> after == before
    &&& match op {
        AlterTypeOp::AddField(f, t) => if field_position(before.field_names@, f@) is Some {
            r matches Err(ExecutorError::InvalidQuery(m)) && m@ == field_exists_message(f@, before.keyspace@, before.name@)
        } else {
            r is Ok && after.field_names@ =~= before.field_names@.push(f)
                && after.field_types@.len() == before.field_types@.len() + 1
                && after.field_types@.drop_last() =~= before.field_types@
                && after.field_types@.last()@ == type_name_text(t)
                && after.comment == before.comment && after.field_comments == before.field_comments
        },
        AlterTypeOp::RenameField(from, to) => match field_position(before.field_names@, from@) {
            None => r matches Err(ExecutorError::InvalidQuery(m)) && m@ == field_missing_message(from@, before.keyspace@, before.name@),
            Some(i) => if !eq_ignore_case(from@, to@) && field_position(before.field_names@, to@) is Some {
                r matches Err(ExecutorError::InvalidQuery(m)) && m@ == field_exists_message(to@, before.keyspace@, before.name@)
            } else {
                let old_name = before.field_names@[i];
                &&& r is Ok
                &&& after.field_names@ =~= before.field_names@.update(i, to)
                &&& after.field_types == before.field_types
                &&& after.comment == before.comment
                &&& match entry_value(before.field_comments@, old_name@) {
                    Some(c) => after.field_comments@.len() > 0
                        && after.field_comments@.drop_last()
                            =~= without_key(without_key(before.field_comments@, old_name@), to@)
                        && after.field_comments@.last().0 == to
                        && after.field_comments@.last().1@ == c,
                    None => after.field_comments == before.field_comments,
                }
            }
        },
        AlterTypeOp::AlterFieldType(f, t) => match field_position(before.field_names@, f@) {
            None => r matches Err(ExecutorError::InvalidQuery(m)) && m@ == field_missing_message(f@, before.keyspace@, before.name@),
            Some(i) => r is Ok && after.field_types@.len() == before.field_types@.len()
                && (forall|j: int| 0 <= j < before.field_types@.len() && j != i ==> after.field_types@[j] == before.field_types@[j])
                && after.field_types@[i]@ == type_name_text(t)
                && after.field_names == before.field_names
                && after.comment == before.comment && after.field_comments == before.field_comments,
        },
        AlterTypeOp::CommentType(c) => r is Ok && after == (TypeDdl { comment: c, ..before }),
        AlterTypeOp::CommentField(f, c) => match field_position(before.field_names@, f@) {
            None => r matches Err(ExecutorError::InvalidQuery(m)) && m@ == field_missing_message(f@, before.keyspace@, before.name@),
            Some(i) => r is Ok && after.field_names == before.field_names
                && after.field_types == before.field_types && after.comment == before.comment
                && after.field_comments@
                    =~= without_key(before.field_comments@, before.field_names@[i]@).push((before.field_names@[i], c)),
        },
    }
}

/// Applies one `ALTER TYPE` change to the type `udt`, whose fields have a
/// type each. Field names are matched in any letter case. A refused change
/// leaves the type as it was.
pub fn alter_user_type(udt: &mut TypeDdl, op: AlterTypeOp) -> (r: Result<(), ExecutorError>)
    requires
        old(udt).field_names@.len() == old(udt).field_types@.len(),
    ensures
        final(udt).field_names@.len() == final(udt).field_types@.len(),
        alter_user_type_spec(*old(udt), op, *final(udt), r),
{
    match op {
        AlterTypeOp::AddField(f, t) => {
            if find_field(&udt.field_names, f.as_str()).is_some() {
                return Err(type_error("Field '", f.as_str(), "' already exists in type '", udt.keyspace.as_str(), udt.name.as_str()));
            }
            udt.field_names.push(f);
            udt.field_types.push(render_ast_cql_type_name(&t));
            Ok(())
        },
        AlterTypeOp::RenameField(from, to) => {
            let index = match find_field(&udt.field_names, from.as_str()) {
                Some(i) => i,
                None => return Err(type_error("Field '", from.as_str(), "' does not exist in type '", udt.keyspace.as_str(), udt.name.as_str())),
            };
            let fc = chars_of(from.as_str());
            let tc = chars_of(to.as_str());
            if !eq_ignore_case_exec(&fc, &tc) && find_field(&udt.field_names, to.as_str()).is_some() {
                return Err(type_error("Field '", to.as_str(), "' already exists in type '", udt.keyspace.as_str(), udt.name.as_str()));
            }
            let ghost old_names = udt.field_names@;
            let old_name = udt.field_names[index].clone();
            udt.field_names.set(index, to.clone());
            assert(udt.field_names@ == old_names.update(index as int, to));
            let found = find_value(&udt.field_comments, old_name.as_str());
            match found {
                Some(c) => {
                    let mut comments: Vec<(String, String)> = Vec::new();
                    std::mem::swap(&mut comments, &mut udt.field_comments);
                    let comments = remove_key(comments, old_name.as_str());
                    let mut comments = remove_key(comments, to.as_str());
                    comments.push((to, c));
                    udt.field_comments = comments;
                },
                None => {},
            }
            Ok(())
        },
        AlterTypeOp::AlterFieldType(f, t) => {
            let index = match find_field(&udt.field_names, f.as_str()) {
                Some(i) => i,
                None => return Err(type_error("Field '", f.as_str(), "' does not exist in type '", udt.keyspace.as_str(), udt.name.as_str())),
            };
            proof { lemma_field_position_found(udt.field_names@, f@); }
            udt.field_types.set(index, render_ast_cql_type_name(&t));
            Ok(())
        },
        AlterTypeOp::CommentType(c) => {
            udt.comment = c;
            Ok(())
        },
        AlterTypeOp::CommentField(f, c) => {
            let index = match find_field(&udt.field_names, f.as_str()) {
                Some(i) => i,
                None => return Err(type_error("Field '", f.as_str(), "' does not exist in type '", udt.keyspace.as_str(), udt.name.as_str())),
            };
            let existing = udt.field_names[index].clone();
            let mut comments: Vec<(String, String)> = Vec::new();
            std::mem::swap(&mut comments, &mut udt.field_comments);
            let mut comments = remove_key(comments, existing.as_str());
            comments.push((existing, c));
            udt.field_comments = comments;
            Ok(())
        },
    }
}

// ─── laws ───────────────────────────────────────────────────────────────

/// After a field is renamed, its comment is found under the new name.
pub proof fn lemma_renamed_comment_follows(comments: Seq<(String, String)>, old_name: Seq<char>, to: String, c: String)
    ensures
        entry_value(without_key(without_key(comments, old_name), to@).push((to, c)), to@) == Some(c@),
{
    let kept = without_key(without_key(comments, old_name), to@);
    lemma_value_absent_after_removal(without_key(comments, old_name), to@);
    lemma_entry_value_push(kept, (to, c), to@);
}

} // verus!

//! What `LIST ROLES` shows of the roles the role manager holds.
use vstd::prelude::*;
use vstd::relations::sorted_by;
use crate::constraints::{lemma_text_asymmetric, lemma_text_transitive, text_less, text_less_exec};
use crate::error::ExecutorError;
use crate::masks::{listed, listed_exec};
use crate::schema::{first_match, lemma_first_match_prefix, retain_unmarked};
use crate::text::{chars_of, push_str, str_eq};

verus! {

broadcast use vstd::seq_lib::group_seq_properties;

/// A role as `LIST ROLES` reads it.
#[derive(Debug)]
pub struct RoleSummary {
    pub name: String,
    pub is_superuser: bool,
    pub can_login: bool,
    /// The roles granted to it directly.
    pub member_of: Vec<String>,
}

/// Roles in name order.
pub open spec fn by_name() -> spec_fn(RoleSummary, RoleSummary) -> bool {
    |a: RoleSummary, b: RoleSummary| !text_less(b.name@, a.name@)
}

pub open spec fn role_named(name: Seq<char>) -> spec_fn(RoleSummary) -> bool {
    |r: RoleSummary| r.name@ == name
}

/// The roles `LIST ROLES OF` a role shows: with `NORECURSIVE` the role and
/// those granted to it directly, else those in `granted`.
pub open spec fn shown_role(base: RoleSummary, no_recursive: bool, granted: Seq<String>) -> spec_fn(RoleSummary) -> bool {
    |r: RoleSummary| if no_recursive {
        r.name@ == base.name@ || listed(base.member_of@, r.name@)
    } else {
        listed(granted, r.name@)
    }
}

proof fn lemma_multiset_insert<T>(s: Seq<T>, k: int, x: T)
    requires
        0 <= k <= s.len(),
    ensures
        s.insert(k, x).to_multiset() =~= s.to_multiset().insert(x),
{
    broadcast use vstd::seq_lib::group_to_multiset_ensures;
    let t = s.insert(k, x);
    assert(t.remove(k) =~= s);
    assert(t[k] == x);
    assert(t.remove(k).to_multiset() =~= t.to_multiset().remove(x));
    assert(t.to_multiset().count(x) > 0) by {
        assert(t.contains(x));
    }
}

/// The roles sorted by name, equal names in their given order.
fn sort_by_name(roles: Vec<RoleSummary>) -> (r: Vec<RoleSummary>)
    ensures
        sorted_by(r@, by_name()),
        r@.to_multiset() == roles@.to_multiset(),
{
    broadcast use vstd::seq_lib::group_to_multiset_ensures;
    let ghost all = roles@;
    let mut out: Vec<RoleSummary> = Vec::new();
    let mut rest = roles;
    let mut n: usize = 0;
    assert(all.len() == rest.len());
    while rest.len() > 0
        invariant
            n <= all.len() <= usize::MAX,
            rest@ == all.subrange(n as int, all.len() as int),
            sorted_by(out@, by_name()),
            out@.to_multiset() == all.subrange(0, n as int).to_multiset(),
        decreases rest.len(),
    {
        assert(n < all.len());
        let x = rest.remove(0);
        assert(x == all[n as int]);
        let xc = chars_of(x.name.as_str());
        let mut k: usize = 0;
        while k < out.len() && !text_less_exec(&xc, &chars_of(out[k].name.as_str()))
            invariant
                k <= out@.len(),
                xc@ == x.name@,
                forall|j: int| 0 <= j < k ==> !text_less(x.name@, #[trigger] out@[j].name@),
            decreases out.len() - k,
        {
            k = k + 1;
        }
        let ghost before = out@;
        proof {
            if k < before.len() {
                assert(text_less(x.name@, before[k as int].name@));
            }
            lemma_multiset_insert(before, k as int, x);
            assert(all.subrange(0, n + 1) =~= all.subrange(0, n as int).push(x));
        }
        out.insert(k, x);
        proof {
            let after = out@;
            assert(after =~= before.insert(k as int, x));
            assert forall|i: int, j: int| 0 <= i < j < after.len() implies #[trigger] by_name()(after[i], after[j]) by {
                if j < k {
                    assert(after[i] == before[i] && after[j] == before[j]);
                } else if j == k {
                    assert(after[i] == before[i]);
                } else if i < k {
                    assert(after[i] == before[i] && after[j] == before[j - 1]);
                    assert(by_name()(before[i], before[j - 1]));
                } else if i == k {
                    assert(after[j] == before[j - 1]);
                    assert(text_less(x.name@, before[k as int].name@));
                    if text_less(before[j - 1].name@, x.name@) {
                        if j - 1 > k {
                            assert(by_name()(before[k as int], before[j - 1]));
                            lemma_text_transitive(before[j - 1].name@, x.name@, before[k as int].name@);
                        } else {
                            lemma_text_asymmetric(x.name@, before[k as int].name@);
                        }
                    }
                } else {
                    assert(after[i] == before[i - 1] && after[j] == before[j - 1]);
                }
            }
        }
        n = n + 1;
        assert(rest@ =~= all.subrange(n as int, all.len() as int));
    }
    assert(all.subrange(0, all.len() as int) =~= all);
    out
}

/// `LIST ROLES`: the roles in name order; for `OF role`, only those the
/// role has. `granted` is every role the named role holds, directly or
/// through other roles, as the role manager resolves it.
pub fn list_roles(roles: Vec<RoleSummary>, of_role: Option<&str>, no_recursive: bool, granted: &Vec<String>)
    -> (r: Result<Vec<RoleSummary>, ExecutorError>)
    ensures
        match of_role {
            None => r matches Ok(out) && sorted_by(out@, by_name()) && out@.to_multiset() == roles@.to_multiset(),
            Some(name) => match first_match(roles@, role_named(name@)) {
                None => r matches Err(ExecutorError::InvalidQuery(m)) && m@ == "Role '"@ + name@ + "' doesn't exist"@,
                Some(i) => r matches Ok(out) && sorted_by(out@, by_name())
                    && out@.to_multiset() == roles@.filter(shown_role(roles@[i], no_recursive, granted@)).to_multiset(),
            },
        },
{
    match of_role {
        None => Ok(sort_by_name(roles)),
        Some(name) => {
            let mut i: usize = 0;
            while i < roles.len() && !str_eq(roles[i].name.as_str(), name)
                invariant
                    i <= roles@.len(),
                    first_match(roles@.subrange(0, i as int), role_named(name@)) is None,
                decreases roles.len() - i,
            {
                assert(roles@.subrange(0, i + 1).drop_last() =~= roles@.subrange(0, i as int));
                i = i + 1;
            }
            if i == roles.len() {
                assert(roles@.subrange(0, roles@.len() as int) =~= roles@);
                let mut m = String::new();
                push_str(&mut m, "Role '");
                push_str(&mut m, name);
                push_str(&mut m, "' doesn't exist");
                return Err(ExecutorError::InvalidQuery(m));
            }
            proof {
                assert(roles@.subrange(0, i + 1).drop_last() =~= roles@.subrange(0, i as int));
                lemma_first_match_prefix(roles@, role_named(name@), i + 1);
            }
            let ghost keep = shown_role(roles@[i as int], no_recursive, granted@);
            let mut marks: Vec<bool> = Vec::new();
            let mut j: usize = 0;
            while j < roles.len()
                invariant
                    i < roles@.len(),
                    j <= roles@.len(),
                    keep == shown_role(roles@[i as int], no_recursive, granted@),
                    marks@.len() == j,
                    forall|t: int| 0 <= t < j ==> marks@[t] == !keep(#[trigger] roles@[t]),
                decreases roles.len() - j,
            {
                let candidate = roles[j].name.as_str();
                let shown = if no_recursive {
                    str_eq(candidate, roles[i].name.as_str()) || listed_exec(roles[i].member_of.as_slice(), candidate)
                } else {
                    listed_exec(granted.as_slice(), candidate)
                };
                marks.push(!shown);
                j = j + 1;
            }
            let kept = retain_unmarked(roles, &marks, Ghost(keep));
            Ok(sort_by_name(kept))
        },
    }
}

} // verus!

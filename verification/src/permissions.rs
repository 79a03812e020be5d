//! Permission names in `GRANT` / `REVOKE` / `LIST PERMISSIONS`, the
//! resources they name, and the network-access options of roles.
use vstd::prelude::*;
use crate::chars::{eq_ignore_case, eq_ignore_case_exec};
use crate::error::ExecutorError;
use crate::text::{chars_of, push_str, str_eq};

verus! {

/// A permission on a resource.
#[derive(Debug, Clone, Copy, PartialEq, Eq, Structural)]
pub enum Permission {
    Create,
    Alter,
    Drop,
    Select,
    Modify,
    Authorize,
    Describe,
    Execute,
    Unmask,
    SelectMasked,
}

/// The permission an upper-case name denotes.
pub open spec fn permission_named(upper: Seq<char>) -> Option<Permission> {
    if upper == "CREATE"@ {
        Some(Permission::Create)
    } else if upper == "ALTER"@ {
        Some(Permission::Alter)
    } else if upper == "DROP"@ {
        Some(Permission::Drop)
    } else if upper == "SELECT"@ {
        Some(Permission::Select)
    } else if upper == "MODIFY"@ {
        Some(Permission::Modify)
    } else if upper == "AUTHORIZE"@ {
        Some(Permission::Authorize)
    } else if upper == "DESCRIBE"@ {
        Some(Permission::Describe)
    } else if upper == "EXECUTE"@ {
        Some(Permission::Execute)
    } else if upper == "UNMASK"@ {
        Some(Permission::Unmask)
    } else if upper == "SELECT_MASKED"@ {
        Some(Permission::SelectMasked)
    } else {
        None
    }
}

/// The permission an upper-case name denotes.
pub fn permission_from_upper(upper: &str) -> (r: Option<Permission>)
    ensures
        r == permission_named(upper@),
{
    if str_eq(upper, "CREATE") {
        Some(Permission::Create)
    } else if str_eq(upper, "ALTER") {
        Some(Permission::Alter)
    } else if str_eq(upper, "DROP") {
        Some(Permission::Drop)
    } else if str_eq(upper, "SELECT") {
        Some(Permission::Select)
    } else if str_eq(upper, "MODIFY") {
        Some(Permission::Modify)
    } else if str_eq(upper, "AUTHORIZE") {
        Some(Permission::Authorize)
    } else if str_eq(upper, "DESCRIBE") {
        Some(Permission::Describe)
    } else if str_eq(upper, "EXECUTE") {
        Some(Permission::Execute)
    } else if str_eq(upper, "UNMASK") {
        Some(Permission::Unmask)
    } else if str_eq(upper, "SELECT_MASKED") {
        Some(Permission::SelectMasked)
    } else {
        None
    }
}

/// The Unicode upper-case form of a text, as `str::to_uppercase` gives it.
pub uninterp spec fn unicode_upper(s: Seq<char>) -> Seq<char>;

/// `str::to_uppercase`.
#[verifier::external_body]
fn to_uppercase(s: &str) -> (r: String)
    ensures
        r@ == unicode_upper(s@),
{
    s.to_uppercase()
}

/// The error for an unknown permission name.
pub open spec fn unknown_permission(p: Seq<char>) -> Seq<char> {
    "Unknown permission '"@ + p + "'"@
}

/// The permission a name denotes, in any letter case.
pub fn parse_permission(p: &str) -> (r: Result<Permission, ExecutorError>)
    ensures
        match permission_named(unicode_upper(p@)) {
            Some(x) => r == Ok::<Permission, ExecutorError>(x),
            None => r matches Err(ExecutorError::InvalidQuery(m)) && m@ == unknown_permission(p@),
        },
{
    let upper = to_uppercase(p);
    match permission_from_upper(upper.as_str()) {
        Some(x) => Ok(x),
        None => {
            let mut m = String::new();
            push_str(&mut m, "Unknown permission '");
            push_str(&mut m, p);
            push_str(&mut m, "'");
            Err(ExecutorError::InvalidQuery(m))
        },
    }
}

/// The permissions a statement names: `None` when one of them is `ALL`,
/// else each name's permission, or the error for the first unknown one.
pub open spec fn requested(names: Seq<Seq<char>>) -> Result<Option<Seq<Permission>>, Seq<char>> {
    if exists|i: int| 0 <= i < names.len() && eq_ignore_case(#[trigger] names[i], "all"@) {
        Ok(None)
    } else {
        match parsed_all(names) {
            Ok(ps) => Ok(Some(ps)),
            Err(e) => Err(e),
        }
    }
}

/// Each name's permission, or the error for the first unknown name.
pub open spec fn parsed_all(names: Seq<Seq<char>>) -> Result<Seq<Permission>, Seq<char>>
    decreases names.len(),
{
    if names.len() == 0 {
        Ok(seq![])
    } else {
        match parsed_all(names.drop_last()) {
            Err(e) => Err(e),
            Ok(ps) => match permission_named(unicode_upper(names.last())) {
                Some(x) => Ok(ps.push(x)),
                None => Err(unknown_permission(names.last())),
            },
        }
    }
}

/// The views of a sequence of strings.
pub open spec fn names_of(v: Seq<String>) -> Seq<Seq<char>> {
    v.map_values(|s: String| s@)
}

/// The permissions a statement names (`None` for `ALL`).
pub fn requested_permissions(permissions: &[String]) -> (r: Result<Option<Vec<Permission>>, ExecutorError>)
    ensures
        match requested(names_of(permissions@)) {
            Ok(None) => r matches Ok(None),
            Ok(Some(ps)) => r matches Ok(Some(v)) && v@ == ps,
            Err(e) => r matches Err(ExecutorError::InvalidQuery(m)) && m@ == e,
        },
{
    let ghost names = names_of(permissions@);
    let mut all = Vec::new();
    all.push('a');
    all.push('l');
    all.push('l');
    assert(all@ =~= "all"@) by { reveal_strlit("all"); }
    let mut i: usize = 0;
    while i < permissions.len()
        invariant
            i <= permissions@.len(),
            names == names_of(permissions@),
            all@ == "all"@,
            forall|j: int| 0 <= j < i ==> !eq_ignore_case(#[trigger] names[j], "all"@),
        decreases permissions.len() - i,
    {
        let c = chars_of(permissions[i].as_str());
        assert(c@ == names[i as int]);
        if eq_ignore_case_exec(&c, &all) {
            return Ok(None);
        }
        i = i + 1;
    }
    let mut out: Vec<Permission> = Vec::new();
    let mut k: usize = 0;
    while k < permissions.len()
        invariant
            k <= permissions@.len(),
            names == names_of(permissions@),
            forall|j: int| 0 <= j < names.len() ==> !eq_ignore_case(#[trigger] names[j], "all"@),
            parsed_all(names.subrange(0, k as int)) == Ok::<Seq<Permission>, Seq<char>>(out@),
        decreases permissions.len() - k,
    {
        assert(names.subrange(0, k + 1).drop_last() =~= names.subrange(0, k as int));
        match parse_permission(permissions[k].as_str()) {
            Ok(x) => out.push(x),
            Err(e) => {
                proof {
                    lemma_parsed_all_stops(names, k as int);
                }
                return Err(e);
            },
        }
        k = k + 1;
    }
    assert(names.subrange(0, names.len() as int) =~= names);
    Ok(Some(out))
}

proof fn lemma_parsed_all_stops(names: Seq<Seq<char>>, k: int)
    requires
        0 <= k < names.len(),
        parsed_all(names.subrange(0, k)) is Ok,
        permission_named(unicode_upper(names[k])) is None,
    ensures
        parsed_all(names) == Err::<Seq<Permission>, Seq<char>>(unknown_permission(names[k])),
    decreases names.len() - k,
{
    if k + 1 == names.len() {
        assert(names.drop_last() =~= names.subrange(0, k));
    } else {
        assert(names.subrange(0, k + 1).drop_last() =~= names.subrange(0, k));
        lemma_parsed_all_prefix_err(names, k + 1);
    }
}

proof fn lemma_parsed_all_prefix_err(names: Seq<Seq<char>>, n: int)
    requires
        1 <= n <= names.len(),
        parsed_all(names.subrange(0, n - 1)) is Ok,
        permission_named(unicode_upper(names[n - 1])) is None,
    ensures
        parsed_all(names) == parsed_all(names.subrange(0, n)),
        parsed_all(names.subrange(0, n)) == Err::<Seq<Permission>, Seq<char>>(unknown_permission(names[n - 1])),
    decreases names.len() - n,
{
    assert(names.subrange(0, n).drop_last() =~= names.subrange(0, n - 1));
    if n == names.len() {
        assert(names.subrange(0, n) =~= names);
    } else {
        lemma_err_persists(names, n);
        assert(names.subrange(0, names.len() as int) =~= names);
    }
}

proof fn lemma_err_persists(names: Seq<Seq<char>>, n: int)
    requires
        1 <= n <= names.len(),
        parsed_all(names.subrange(0, n)) is Err,
    ensures
        parsed_all(names.subrange(0, names.len() as int)) == parsed_all(names.subrange(0, n)),
    decreases names.len() - n,
{
    if n < names.len() {
        assert(names.subrange(0, n + 1).drop_last() =~= names.subrange(0, n));
        lemma_err_persists(names, n + 1);
    }
}

/// Who may log in from where: all datacenters or some, all CIDR groups or some.
#[derive(Debug, Clone)]
pub enum RoleAccess {
    All,
    Restricted(Vec<String>),
}

/// The network permissions of a role.
#[derive(Debug, Clone)]
pub struct NetworkPermissions {
    pub all_datacenters: bool,
    pub allowed_datacenters: Vec<String>,
    pub all_cidrs: bool,
    pub allowed_cidrs: Vec<String>,
}

/// Whether an access option allows everything, and what it lists otherwise.
pub open spec fn access_of(a: Option<RoleAccess>) -> (bool, Seq<Seq<char>>) {
    match a {
        Some(RoleAccess::Restricted(v)) => (false, names_of(v@)),
        _ => (true, seq![]),
    }
}

fn access_parts(a: Option<&RoleAccess>) -> (r: (bool, Vec<String>))
    ensures
        (r.0, names_of(r.1@)) == access_of(match a { Some(x) => Some(*x), None => None }),
{
    match a {
        Some(RoleAccess::Restricted(values)) => {
            let mut out: Vec<String> = Vec::new();
            let mut i: usize = 0;
            while i < values.len()
                invariant
                    i <= values@.len(),
                    out@ == values@.subrange(0, i as int),
                decreases values.len() - i,
            {
                let v = values[i].clone();
                out.push(v);
                i = i + 1;
                assert(out@ =~= values@.subrange(0, i as int));
            }
            assert(values@.subrange(0, values@.len() as int) =~= values@);
            (false, out)
        },
        _ => (true, Vec::new()),
    }
}

/// The network permissions the access options of `CREATE/ALTER ROLE` give:
/// none when neither option is present; an absent option allows everything.
pub fn role_network_permissions(datacenter_access: Option<&RoleAccess>, cidr_access: Option<&RoleAccess>) -> (r: Option<NetworkPermissions>)
    ensures
        match r {
            None => datacenter_access is None && cidr_access is None,
            Some(p) => !(datacenter_access is None && cidr_access is None)
                && (p.all_datacenters, names_of(p.allowed_datacenters@))
                    == access_of(match datacenter_access { Some(x) => Some(*x), None => None })
                && (p.all_cidrs, names_of(p.allowed_cidrs@))
                    == access_of(match cidr_access { Some(x) => Some(*x), None => None }),
        },
{
    if datacenter_access.is_none() && cidr_access.is_none() {
        return None;
    }
    let (all_datacenters, allowed_datacenters) = access_parts(datacenter_access);
    let (all_cidrs, allowed_cidrs) = access_parts(cidr_access);
    Some(NetworkPermissions { all_datacenters, allowed_datacenters, all_cidrs, allowed_cidrs })
}

/// A resource as a `GRANT`, `REVOKE` or `LIST` statement names it.
#[derive(Debug, PartialEq, Eq)]
pub enum Resource {
    AllKeyspaces,
    Keyspace(String),
    Table { keyspace: Option<String>, table: String },
    AllRoles,
    Role(String),
    AllFunctions,
    FunctionInKeyspace(String),
    Function { keyspace: Option<String>, name: String },
    AllMBeans,
    MBean(String),
    MBeanPattern(String),
}

/// A resource as the authorizer knows it.
#[derive(Debug, PartialEq, Eq)]
pub enum SecurityResource {
    Root,
    Keyspace(String),
    Table { keyspace: String, table: String },
    Role(String),
    Function { keyspace: String, name: String },
    Jmx(String),
}

/// The keyspace a resource names, `system` where the statement names none.
pub open spec fn keyspace_or_system(keyspace: Option<String>) -> Seq<char> {
    match keyspace {
        Some(k) => k@,
        None => "system"@,
    }
}

/// Whether the authorizer's resource is the one a statement's resource
/// stands for: every "all ..." resource is the root, a table or function
/// without a keyspace is taken in `system`, a keyspace's functions are the
/// keyspace, and MBeans and their patterns are JMX resources.
pub open spec fn security_resource_of(r: Resource, s: SecurityResource) -> bool {
    match r {
        Resource::AllKeyspaces | Resource::AllRoles | Resource::AllFunctions | Resource::AllMBeans => s is Root,
        Resource::Keyspace(k) | Resource::FunctionInKeyspace(k) => s matches SecurityResource::Keyspace(k2) && k2@ == k@,
        Resource::Table { keyspace, table } => s matches SecurityResource::Table { keyspace: k2, table: t2 }
            && k2@ == keyspace_or_system(keyspace) && t2@ == table@,
        Resource::Role(n) => s matches SecurityResource::Role(n2) && n2@ == n@,
        Resource::Function { keyspace, name } => s matches SecurityResource::Function { keyspace: k2, name: n2 }
            && k2@ == keyspace_or_system(keyspace) && n2@ == name@,
        Resource::MBean(m) | Resource::MBeanPattern(m) => s matches SecurityResource::Jmx(m2) && m2@ == m@,
    }
}

fn keyspace_or_system_exec(keyspace: &Option<String>) -> (r: String)
    ensures
        r@ == keyspace_or_system(*keyspace),
{
    match keyspace {
        Some(k) => k.clone(),
        None => {
            let mut s = String::new();
            push_str(&mut s, "system");
            s
        },
    }
}

/// The authorizer's resource for a resource a statement names.
pub fn ast_resource_to_security(r: &Resource) -> (res: Result<SecurityResource, ExecutorError>)
    ensures
        res matches Ok(s) && security_resource_of(*r, s),
{
    match r {
        Resource::AllKeyspaces | Resource::AllRoles | Resource::AllFunctions | Resource::AllMBeans => Ok(SecurityResource::Root),
        Resource::Keyspace(k) | Resource::FunctionInKeyspace(k) => Ok(SecurityResource::Keyspace(k.clone())),
        Resource::Table { keyspace, table } => Ok(SecurityResource::Table {
            keyspace: keyspace_or_system_exec(keyspace),
            table: table.clone(),
        }),
        Resource::Role(n) => Ok(SecurityResource::Role(n.clone())),
        Resource::Function { keyspace, name } => Ok(SecurityResource::Function {
            keyspace: keyspace_or_system_exec(keyspace),
            name: name.clone(),
        }),
        Resource::MBean(m) | Resource::MBeanPattern(m) => Ok(SecurityResource::Jmx(m.clone())),
    }
}

} // verus!

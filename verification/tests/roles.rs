use cassandra_server::error::ExecutorError;
use cassandra_server::roles::{list_roles, RoleSummary};

fn role(name: &str, member_of: &[&str]) -> RoleSummary {
    RoleSummary {
        name: name.to_string(),
        is_superuser: name == "cassandra",
        can_login: true,
        member_of: member_of.iter().map(|s| s.to_string()).collect(),
    }
}

fn names(roles: &[RoleSummary]) -> Vec<String> {
    roles.iter().map(|r| r.name.clone()).collect()
}

#[test]
fn list_roles_returns_role_rows() {
    let roles = vec![role("cassandra", &[]), role("analyst", &[])];
    let listed = list_roles(roles, None, false, &vec![]).unwrap();
    let role_names = names(&listed);
    assert!(role_names.contains(&"analyst".to_string()));
    assert!(role_names.contains(&"cassandra".to_string()));
    assert_eq!(role_names, vec!["analyst".to_string(), "cassandra".to_string()]);
    assert!(listed[1].is_superuser);
}

#[test]
fn list_roles_of_role_respects_recursive_flag() {
    let all = || vec![role("cassandra", &[]), role("top", &[]), role("mid", &["top"]), role("child", &["mid"])];
    // Every role `child` holds, as the role manager resolves grants through other roles.
    let granted: Vec<String> = vec!["child".to_string(), "mid".to_string(), "top".to_string()];

    let recursive_names = names(&list_roles(all(), Some("child"), false, &granted).unwrap());
    assert!(recursive_names.contains(&"child".to_string()));
    assert!(recursive_names.contains(&"mid".to_string()));
    assert!(recursive_names.contains(&"top".to_string()));

    let direct_names = names(&list_roles(all(), Some("child"), true, &granted).unwrap());
    assert!(direct_names.contains(&"child".to_string()));
    assert!(direct_names.contains(&"mid".to_string()));
    assert!(!direct_names.contains(&"top".to_string()));
    assert_eq!(direct_names, vec!["child".to_string(), "mid".to_string()]);
}

#[test]
fn list_roles_of_missing_role_fails() {
    assert!(matches!(
        list_roles(vec![role("cassandra", &[])], Some("ghost"), false, &vec![]),
        Err(ExecutorError::InvalidQuery(m)) if m == "Role 'ghost' doesn't exist"
    ));
}

#[test]
fn list_roles_sorts_by_name_keeping_equal_names_in_order() {
    let mut second = role("b", &[]);
    second.can_login = false;
    let listed = list_roles(vec![role("c", &[]), role("b", &[]), role("a", &[]), second, role("B", &[])], None, false, &vec![])
        .unwrap();
    assert_eq!(names(&listed), vec!["B", "a", "b", "b", "c"]);
    assert!(listed[2].can_login);
    assert!(!listed[3].can_login);
}

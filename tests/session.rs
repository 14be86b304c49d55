use pixie::session::{query_param, raw_query_param, role_for_query, role_for_token, Role, SessionRegistry};

#[test]
fn role_from_token() {
    assert_eq!(role_for_token(Some("s3cret"), "s3cret"), Role::Admin);
    assert_eq!(role_for_token(Some("S3cret"), "s3cret"), Role::Player);
    assert_eq!(role_for_token(Some(""), "s3cret"), Role::Player);
    assert_eq!(role_for_token(None, "s3cret"), Role::Player);
}

#[test]
fn role_from_query_string() {
    assert_eq!(role_for_query(Some("auth=s3cret"), "s3cret"), Role::Admin);
    assert_eq!(role_for_query(Some("x=1&auth=s3cret&y=2"), "s3cret"), Role::Admin);
    assert_eq!(role_for_query(Some("auth=s3cret&auth=no"), "s3cret"), Role::Player);
    assert_eq!(role_for_query(Some("auth=no&auth=s3cret"), "s3cret"), Role::Admin);
    assert_eq!(role_for_query(Some("authx=s3cret"), "s3cret"), Role::Player);
    assert_eq!(role_for_query(Some("auth"), "s3cret"), Role::Player);
    assert_eq!(role_for_query(None, "s3cret"), Role::Player);
}

#[test]
fn query_values_are_percent_decoded() {
    assert_eq!(raw_query_param("auth=a%20b", "auth"), Some("a%20b".to_string()));
    assert_eq!(query_param("auth=a%20b", "auth"), Some("a b".to_string()));
    assert_eq!(query_param("auth=p%26q%3Dr", "auth"), Some("p&q=r".to_string()));
    assert_eq!(role_for_query(Some("auth=se%63ret"), "secret"), Role::Admin);
    assert_eq!(query_param("auth=a+b", "auth"), Some("a+b".to_string()));
}

#[test]
fn query_value_that_is_not_utf8_reads_empty() {
    assert_eq!(query_param("auth=%FF", "auth"), Some(String::new()));
    assert_eq!(query_param("other=1", "auth"), None);
    assert_eq!(query_param("", "auth"), None);
    assert_eq!(query_param("auth=", "auth"), Some(String::new()));
    assert_eq!(query_param("auth=x=y", "auth"), Some("x=y".to_string()));
}

#[test]
fn registry_register_replace_remove() {
    let mut reg: SessionRegistry<&str> = SessionRegistry::new();
    reg.register(1, Role::Player, "a");
    reg.register(2, Role::Admin, "b");
    assert_eq!(reg.len(), 2);
    reg.register(1, Role::Admin, "c");
    assert_eq!(reg.len(), 2);
    assert_eq!(reg.get(1).unwrap().outbound, "c");
    assert_eq!(reg.get(1).unwrap().role, Role::Admin);
    let removed = reg.remove(1).unwrap();
    assert_eq!(removed.outbound, "c");
    assert!(reg.remove(1).is_none());
    assert!(reg.get(1).is_none());
    assert_eq!(reg.len(), 1);
}

#[test]
fn broadcast_targets_all_or_all_but_one() {
    let mut reg: SessionRegistry<u8> = SessionRegistry::new();
    for id in [10u64, 20, 30] {
        reg.register(id, Role::Player, id as u8);
    }
    assert_eq!(reg.broadcast_targets(None), vec![0, 1, 2]);
    assert_eq!(reg.broadcast_targets(Some(20)), vec![0, 2]);
    assert_eq!(reg.broadcast_targets(Some(99)), vec![0, 1, 2]);
    let reached: Vec<u8> = reg.broadcast_targets(Some(10)).into_iter().map(|i| reg.session_at(i).outbound).collect();
    assert_eq!(reached, vec![20, 30]);
    let empty: SessionRegistry<u8> = SessionRegistry::new();
    assert!(empty.broadcast_targets(None).is_empty());
}

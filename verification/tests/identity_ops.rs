use git_user_switch::error::AppError;
use git_user_switch::identity::{add_user, build_alias_list, delete_user, list_all_users,
    switch_user};
use git_user_switch::profile::GitUserProfile;

fn ops_profile(username: &str, email: &str, alias: &str) -> GitUserProfile {
    GitUserProfile {
        git_username: username.to_string(),
        git_email: email.to_string(),
        user_alias: alias.to_string(),
    }
}

#[test]
fn add_then_list() {
    let mut users: Vec<GitUserProfile> = Vec::new();
    let r = add_user(&mut users, "Alice", "a@x.com", "a");
    assert!(r.is_ok());
    let listed = list_all_users(&users).unwrap();
    assert_eq!(listed.len(), 1);
    assert_eq!(listed[0].git_username, "Alice");
    assert_eq!(listed[0].git_email, "a@x.com");
    assert_eq!(listed[0].user_alias, "a");
}

#[test]
fn add_duplicate_username_fails() {
    let mut users = vec![ops_profile("alice", "a@x.com", "a")];
    let r = add_user(&mut users, "alice", "b@y.com", "b");
    match r {
        Err(AppError::Validation(msg)) => assert_eq!(msg, "username already exists"),
        other => panic!("expected a validation error, got {:?}", other.is_ok()),
    }
    assert_eq!(users.len(), 1);
    assert_eq!(users[0].git_username, "alice");
    assert_eq!(users[0].git_email, "a@x.com");
    assert_eq!(users[0].user_alias, "a");
}

#[test]
fn add_duplicate_email_fails() {
    let mut users = vec![ops_profile("alice", "a@x.com", "a")];
    let r = add_user(&mut users, "bob", "a@x.com", "b");
    match r {
        Err(AppError::Validation(msg)) => assert_eq!(msg, "email already exists"),
        _ => panic!("expected a validation error"),
    }
    assert_eq!(users.len(), 1);
}

#[test]
fn add_duplicate_alias_fails() {
    let mut users = vec![ops_profile("alice", "a@x.com", "a")];
    let r = add_user(&mut users, "bob", "b@y.com", "a");
    match r {
        Err(AppError::Validation(msg)) => assert_eq!(msg, "alias already exists"),
        _ => panic!("expected a validation error"),
    }
    assert_eq!(users.len(), 1);
}

#[test]
fn add_reserved_alias_fails_on_empty_store() {
    let mut users: Vec<GitUserProfile> = Vec::new();
    let r = add_user(&mut users, "Bob", "bob@co.com", "back");
    match r {
        Err(AppError::Validation(msg)) => assert_eq!(msg, "alias cannot be 'back'"),
        _ => panic!("expected a validation error"),
    }
    assert!(users.is_empty());
}

#[test]
fn add_reserved_alias_fails_on_filled_store() {
    let mut users = vec![ops_profile("alice", "a@x.com", "a")];
    let r = add_user(&mut users, "Bob", "bob@co.com", "back");
    assert!(matches!(r, Err(AppError::Validation(_))));
    assert_eq!(users.len(), 1);
}

#[test]
fn add_sequence_keeps_uniqueness() {
    let mut users: Vec<GitUserProfile> = Vec::new();
    assert!(add_user(&mut users, "Alice", "a@x.com", "a").is_ok());
    assert!(add_user(&mut users, "Bob", "b@y.com", "b").is_ok());
    assert!(add_user(&mut users, "Alice", "c@z.com", "c").is_err());
    assert!(add_user(&mut users, "Carol", "a@x.com", "c").is_err());
    assert!(add_user(&mut users, "Carol", "c@z.com", "a").is_err());
    assert!(add_user(&mut users, "Carol", "c@z.com", "c").is_ok());
    assert_eq!(users.len(), 3);
    for i in 0..users.len() {
        for j in 0..users.len() {
            if i != j {
                assert_ne!(users[i].git_username, users[j].git_username);
                assert_ne!(users[i].git_email, users[j].git_email);
                assert_ne!(users[i].user_alias, users[j].user_alias);
            }
        }
    }
}

#[test]
fn delete_removes_profile() {
    let mut users = vec![
        ops_profile("alice", "a@x.com", "a"),
        ops_profile("bob", "b@y.com", "b"),
    ];
    let r = delete_user(&mut users, "a");
    assert!(r.is_ok());
    assert_eq!(users.len(), 1);
    assert_eq!(users[0].user_alias, "b");
}

#[test]
fn delete_missing_alias_fails_and_keeps_collection() {
    let mut users = vec![ops_profile("alice", "a@x.com", "a")];
    let r = delete_user(&mut users, "missing");
    match r {
        Err(AppError::UserNotFound(alias)) => assert_eq!(alias, "missing"),
        _ => panic!("expected a user-not-found error"),
    }
    assert_eq!(users.len(), 1);
    assert_eq!(users[0].git_username, "alice");
    assert_eq!(users[0].git_email, "a@x.com");
    assert_eq!(users[0].user_alias, "a");
}

#[test]
fn delete_on_empty_store_fails() {
    let mut users: Vec<GitUserProfile> = Vec::new();
    assert!(matches!(delete_user(&mut users, "a"), Err(AppError::NoUsers)));
}

#[test]
fn switch_sets_name_then_email() {
    let users = vec![
        ops_profile("Ann", "ann@a.com", "home"),
        ops_profile("Bob", "bob@co.com", "work"),
    ];
    let cmds = switch_user(&users, "work").unwrap();
    assert_eq!(cmds.len(), 2);
    assert_eq!(cmds[0].key, "user.name");
    assert_eq!(cmds[0].value, "Bob");
    assert_eq!(cmds[1].key, "user.email");
    assert_eq!(cmds[1].value, "bob@co.com");
}

#[test]
fn switch_missing_alias_fails() {
    let users = vec![ops_profile("Ann", "ann@a.com", "home")];
    match switch_user(&users, "work") {
        Err(AppError::UserNotFound(alias)) => assert_eq!(alias, "work"),
        _ => panic!("expected a user-not-found error"),
    }
}

#[test]
fn switch_on_empty_store_fails() {
    let users: Vec<GitUserProfile> = Vec::new();
    assert!(matches!(switch_user(&users, "work"), Err(AppError::NoUsers)));
}

#[test]
fn switch_reserved_alias_fails() {
    let users = vec![ops_profile("Ann", "ann@a.com", "back")];
    match switch_user(&users, "back") {
        Err(AppError::Validation(msg)) => assert_eq!(msg, "invalid alias for switching"),
        _ => panic!("expected a validation error"),
    }
}

#[test]
fn list_on_empty_store_fails() {
    let users: Vec<GitUserProfile> = Vec::new();
    assert!(matches!(list_all_users(&users), Err(AppError::NoUsers)));
}

#[test]
fn alias_list_ends_with_back() {
    let users = vec![
        ops_profile("alice", "a@x.com", "a"),
        ops_profile("bob", "b@y.com", "b"),
    ];
    let aliases = build_alias_list(&users);
    assert_eq!(aliases, vec!["a".to_string(), "b".to_string(), "back".to_string()]);
}

#[test]
fn alias_list_of_empty_store_is_only_back() {
    let users: Vec<GitUserProfile> = Vec::new();
    assert_eq!(build_alias_list(&users), vec!["back".to_string()]);
}

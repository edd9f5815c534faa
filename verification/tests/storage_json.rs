use git_user_switch::error::AppError;
use git_user_switch::storage::{check_if_users_exist, get_global_profile_path, load_users,
    save_users};
use git_user_switch::profile::GitUserProfile;

fn store_profile(username: &str, email: &str, alias: &str) -> GitUserProfile {
    GitUserProfile {
        git_username: username.to_string(),
        git_email: email.to_string(),
        user_alias: alias.to_string(),
    }
}

fn assert_same_profiles(a: &[GitUserProfile], b: &[GitUserProfile]) {
    assert_eq!(a.len(), b.len());
    for i in 0..a.len() {
        assert_eq!(a[i].git_username, b[i].git_username);
        assert_eq!(a[i].git_email, b[i].git_email);
        assert_eq!(a[i].user_alias, b[i].user_alias);
    }
}

#[test]
fn save_empty_collection_is_bare_brackets() {
    let users: Vec<GitUserProfile> = Vec::new();
    assert_eq!(save_users(&users), "[]");
}

#[test]
fn save_writes_pretty_printed_json() {
    let users = vec![store_profile("Alice", "a@x.com", "a")];
    let expected = "[\n  {\n    \"git_username\": \"Alice\",\n    \"git_email\": \"a@x.com\",\n    \"user_alias\": \"a\"\n  }\n]";
    assert_eq!(save_users(&users), expected);
}

#[test]
fn save_matches_serde_json_string_escaping() {
    let users = vec![
        store_profile("Alice", "a@x.com", "a"),
        store_profile("Bob \"the\\builder\"", "b@y.com", "line\nbreak\ttab\u{1}ctl\u{1f}"),
    ];
    let mut expected = String::from("[");
    for (i, u) in users.iter().enumerate() {
        if i > 0 {
            expected.push(',');
        }
        expected.push_str("\n  {\n    \"git_username\": ");
        expected.push_str(
            &serde_json::to_string(&serde_json::Value::String(u.git_username.clone())).unwrap(),
        );
        expected.push_str(",\n    \"git_email\": ");
        expected.push_str(
            &serde_json::to_string(&serde_json::Value::String(u.git_email.clone())).unwrap(),
        );
        expected.push_str(",\n    \"user_alias\": ");
        expected.push_str(
            &serde_json::to_string(&serde_json::Value::String(u.user_alias.clone())).unwrap(),
        );
        expected.push_str("\n  }");
    }
    expected.push_str("\n]");
    assert_eq!(save_users(&users), expected);
}

#[test]
fn load_missing_file_is_empty_collection() {
    let r = load_users(None).unwrap();
    assert!(r.is_empty());
}

#[test]
fn load_blank_file_is_empty_collection() {
    assert!(load_users(Some("")).unwrap().is_empty());
    assert!(load_users(Some("   \n\t  \r\n ")).unwrap().is_empty());
}

#[test]
fn load_reads_what_save_wrote() {
    let users = vec![
        store_profile("Alice", "a@x.com", "a"),
        store_profile("Bob \"the\\builder\"", "b@y.com", "work"),
        store_profile("Zoë 😀", "z@unicode.example", "line\nbreak\u{1}ctl"),
    ];
    let text = save_users(&users);
    let loaded = load_users(Some(&text)).unwrap();
    assert_same_profiles(&users, &loaded);
    let text_again = save_users(&loaded);
    assert_eq!(text, text_again);
}

#[test]
fn load_accepts_compact_json_and_any_member_order() {
    let text = "[{\"user_alias\":\"a\",\"git_username\":\"Alice\",\"git_email\":\"a@x.com\"}]";
    let loaded = load_users(Some(text)).unwrap();
    assert_same_profiles(&loaded, &[store_profile("Alice", "a@x.com", "a")]);
}

#[test]
fn load_accepts_json_escapes() {
    let text = "[{\"git_username\":\"\\u0041\\n\\t\\\"\\\\\\/\",\"git_email\":\"\\ud83d\\ude00\",\"user_alias\":\"a\"}]";
    let loaded = load_users(Some(text)).unwrap();
    assert_eq!(loaded[0].git_username, "A\n\t\"\\/");
    assert_eq!(loaded[0].git_email, "😀");
}

#[test]
fn load_rejects_text_that_is_not_json() {
    assert!(matches!(load_users(Some("not json")), Err(AppError::Parse(_))));
}

#[test]
fn load_rejects_object_with_missing_member() {
    let text = "[{\"git_username\":\"Alice\",\"git_email\":\"a@x.com\"}]";
    assert!(matches!(load_users(Some(text)), Err(AppError::Parse(_))));
}

#[test]
fn load_rejects_object_with_unknown_member() {
    let text = "[{\"git_username\":\"A\",\"git_email\":\"a@x.com\",\"user_alias\":\"a\",\"extra\":\"x\"}]";
    assert!(matches!(load_users(Some(text)), Err(AppError::Parse(_))));
}

#[test]
fn load_rejects_repeated_member() {
    let text = "[{\"git_username\":\"A\",\"git_username\":\"B\",\"git_email\":\"a@x.com\"}]";
    assert!(matches!(load_users(Some(text)), Err(AppError::Parse(_))));
}

#[test]
fn load_rejects_non_string_value() {
    let text = "[{\"git_username\":1,\"git_email\":\"a@x.com\",\"user_alias\":\"a\"}]";
    assert!(matches!(load_users(Some(text)), Err(AppError::Parse(_))));
}

#[test]
fn load_rejects_trailing_text() {
    assert!(matches!(load_users(Some("[] trailing")), Err(AppError::Parse(_))));
}

#[test]
fn load_rejects_lone_surrogate_escape() {
    let text = "[{\"git_username\":\"\\ud83d\",\"git_email\":\"a@x.com\",\"user_alias\":\"a\"}]";
    assert!(matches!(load_users(Some(text)), Err(AppError::Parse(_))));
}

#[test]
fn load_rejects_bare_control_character() {
    let text = "[{\"git_username\":\"a\u{1}b\",\"git_email\":\"a@x.com\",\"user_alias\":\"a\"}]";
    assert!(matches!(load_users(Some(text)), Err(AppError::Parse(_))));
}

#[test]
fn load_agrees_with_serde_json_on_valid_input() {
    let text = " [ {\"git_username\" : \"Alice\", \"git_email\":\"a@x.com\",\n \"user_alias\":\"a\"} , {\"git_username\":\"Bob\",\"git_email\":\"b@y.com\",\"user_alias\":\"b\"} ] ";
    let loaded = load_users(Some(text)).unwrap();
    let reference: serde_json::Value = serde_json::from_str(text).unwrap();
    let array = reference.as_array().unwrap();
    assert_eq!(loaded.len(), array.len());
    for i in 0..loaded.len() {
        assert_eq!(loaded[i].git_username, array[i]["git_username"].as_str().unwrap());
        assert_eq!(loaded[i].git_email, array[i]["git_email"].as_str().unwrap());
        assert_eq!(loaded[i].user_alias, array[i]["user_alias"].as_str().unwrap());
    }
}

#[test]
fn check_users_exist_rejects_empty() {
    let users: Vec<GitUserProfile> = Vec::new();
    assert!(matches!(check_if_users_exist(&users), Err(AppError::NoUsers)));
    let filled = vec![store_profile("a", "a@x.com", "a")];
    assert!(check_if_users_exist(&filled).is_ok());
}

#[test]
fn profile_path_appends_file_name() {
    let r = get_global_profile_path(Some("/home/someone".to_string())).unwrap();
    assert_eq!(r, "/home/someone/user_profiles.json");
}

#[test]
fn profile_path_without_home_fails() {
    assert!(matches!(get_global_profile_path(None), Err(AppError::Config(_))));
}

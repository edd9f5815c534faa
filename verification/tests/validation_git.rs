use git_user_switch::error::AppError;
use git_user_switch::git::{GitOutput, current_profile, interpret_get_output,
    interpret_repo_check, interpret_set_output};
use git_user_switch::profile::GitUserProfile;
use git_user_switch::validation::{validate_input_alias, validate_input_email,
    validate_input_username};

fn check_profile(username: &str, email: &str, alias: &str) -> GitUserProfile {
    GitUserProfile {
        git_username: username.to_string(),
        git_email: email.to_string(),
        user_alias: alias.to_string(),
    }
}

fn validation_message(r: Result<(), AppError>) -> String {
    match r {
        Err(AppError::Validation(msg)) => msg,
        Ok(()) => panic!("expected a validation error, input was accepted"),
        Err(_) => panic!("expected a validation error of the validation kind"),
    }
}

#[test]
fn username_rules() {
    let users = vec![check_profile("alice", "a@x.com", "a")];
    assert!(validate_input_username("bob", &users).is_ok());
    assert_eq!(validation_message(validate_input_username("", &users)), "username cannot be empty");
    assert_eq!(
        validation_message(validate_input_username(&"x".repeat(31), &users)),
        "username too long, max 30 characters"
    );
    assert!(validate_input_username(&"x".repeat(30), &users).is_ok());
    assert_eq!(
        validation_message(validate_input_username("alice", &users)),
        "username already exists"
    );
}

#[test]
fn email_rules() {
    let users = vec![check_profile("alice", "a@x.com", "a")];
    assert!(validate_input_email("bob@example.com", &users).is_ok());
    assert_eq!(validation_message(validate_input_email("", &users)), "email cannot be empty");
    let long = format!("{}@example.com", "x".repeat(95));
    assert_eq!(
        validation_message(validate_input_email(&long, &users)),
        "email too long, max 100 characters"
    );
    assert_eq!(
        validation_message(validate_input_email("not-an-email", &users)),
        "invalid email format"
    );
    assert_eq!(
        validation_message(validate_input_email("with [at] nothing", &users)),
        "invalid email format"
    );
    assert_eq!(
        validation_message(validate_input_email("a@x.com", &users)),
        "email already exists"
    );
}

#[test]
fn alias_rules() {
    let users = vec![check_profile("alice", "a@x.com", "a")];
    assert!(validate_input_alias("work", &users).is_ok());
    assert_eq!(validation_message(validate_input_alias("", &users)), "alias cannot be empty");
    assert_eq!(
        validation_message(validate_input_alias(&"x".repeat(31), &users)),
        "alias too long, max 30 characters"
    );
    assert_eq!(validation_message(validate_input_alias("back", &users)), "alias cannot be 'back'");
    assert_eq!(validation_message(validate_input_alias("a", &users)), "alias already exists");
}

#[test]
fn byte_length_counts_for_the_bounds() {
    let users: Vec<GitUserProfile> = Vec::new();
    // ten four-byte characters: ten characters, forty bytes
    let wide = "😀".repeat(10);
    assert!(matches!(validate_input_username(&wide, &users), Err(AppError::Validation(_))));
}

#[test]
fn get_output_keeps_raw_stdout() {
    let out = GitOutput {
        success: true,
        stdout: "Alice Smith\n".to_string(),
        stderr: String::new(),
    };
    assert_eq!(interpret_get_output(&out).unwrap(), "Alice Smith\n");
}

#[test]
fn get_output_failure_carries_trimmed_stderr() {
    let out = GitOutput {
        success: false,
        stdout: String::new(),
        stderr: "  fatal: bad config\n".to_string(),
    };
    match interpret_get_output(&out) {
        Err(AppError::GitCommand(msg)) => assert_eq!(msg, "fatal: bad config"),
        _ => panic!("expected a git command error"),
    }
}

#[test]
fn set_output_success_and_failure() {
    let ok = GitOutput { success: true, stdout: String::new(), stderr: String::new() };
    assert!(interpret_set_output(&ok).is_ok());
    let bad = GitOutput {
        success: false,
        stdout: String::new(),
        stderr: "\terror: cannot lock\r\n".to_string(),
    };
    match interpret_set_output(&bad) {
        Err(AppError::GitCommand(msg)) => assert_eq!(msg, "error: cannot lock"),
        _ => panic!("expected a git command error"),
    }
}

#[test]
fn repo_check_reads_trimmed_true() {
    let yes = GitOutput { success: true, stdout: "true\n".to_string(), stderr: String::new() };
    assert!(interpret_repo_check(&yes).unwrap());
    let no = GitOutput { success: true, stdout: "false\n".to_string(), stderr: String::new() };
    assert!(!interpret_repo_check(&no).unwrap());
    let bad = GitOutput {
        success: false,
        stdout: String::new(),
        stderr: "fatal: not a git repository\n".to_string(),
    };
    match interpret_repo_check(&bad) {
        Err(AppError::GitCommand(msg)) => assert_eq!(msg, "fatal: not a git repository"),
        _ => panic!("expected a git command error"),
    }
}

#[test]
fn current_profile_trims_both_values() {
    let (name, email) = current_profile(" Alice Smith \n", "\ta@x.com\r\n");
    assert_eq!(name, "Alice Smith");
    assert_eq!(email, "a@x.com");
}

#[test]
fn error_kind_labels() {
    assert_eq!(AppError::NoUsers.kind_label(), "no users found");
    assert_eq!(AppError::NotInRepository.kind_label(), "not in git repository");
    assert_eq!(AppError::UserNotFound("x".to_string()).kind_label(), "user alias not found");
}

use vstd::prelude::*;
use vstd::utf8::encode_utf8;

use crate::error::AppError;
use crate::profile::{GitUserProfile, ProfileData, profile_views, has_username, has_email,
    has_alias};
use crate::text::str_eq;

verus! {

/// Maximum byte length of a git username.
pub const MAX_USERNAME_LENGTH: usize = 30;

/// Maximum byte length of a git email address.
pub const MAX_EMAIL_LENGTH: usize = 100;

/// Maximum byte length of a user alias.
pub const MAX_ALIAS_LENGTH: usize = 30;

/// The alias reserved for menu navigation; no profile may be stored under it,
/// and it is refused as a switch target.
pub open spec fn reserved_alias() -> Seq<char> {
    "back"@
}

/// Whether the email address is well formed.  The decision is made by the
/// `validator` crate and depends on the characters of the address alone.
pub uninterp spec fn email_ok(s: Seq<char>) -> bool;

/// Relies on `ValidateEmail::validate_email` of the validator crate for
/// `&str`: whether the string is a well-formed email address, a function of
/// its characters alone.
#[verifier::external_body]
fn check_email_format(email: &str) -> (r: bool)
    ensures
        r == email_ok(email@),
{
    validator::ValidateEmail::validate_email(&email)
}

/// A username may be stored when it is non-empty, within the length bound and
/// not yet taken.
pub open spec fn username_valid(name: Seq<char>, users: Seq<ProfileData>) -> bool {
    &&& name.len() > 0
    &&& encode_utf8(name).len() <= MAX_USERNAME_LENGTH
    &&& !has_username(users, name)
}

/// An email may be stored when it is non-empty, within the length bound, well
/// formed and not yet taken.
pub open spec fn email_valid(email: Seq<char>, users: Seq<ProfileData>) -> bool {
    &&& email.len() > 0
    &&& encode_utf8(email).len() <= MAX_EMAIL_LENGTH
    &&& email_ok(email)
    &&& !has_email(users, email)
}

/// An alias may be stored when it is non-empty, within the length bound, not
/// the reserved navigation value and not yet taken.
pub open spec fn alias_valid(alias: Seq<char>, users: Seq<ProfileData>) -> bool {
    &&& alias.len() > 0
    &&& encode_utf8(alias).len() <= MAX_ALIAS_LENGTH
    &&& alias != reserved_alias()
    &&& !has_alias(users, alias)
}

/// The reason the username is refused: the first failing rule, checked in the
/// order empty, too long, taken.
pub open spec fn username_reason(name: Seq<char>, users: Seq<ProfileData>) -> Seq<char> {
    if name.len() == 0 {
        "username cannot be empty"@
    } else if encode_utf8(name).len() > MAX_USERNAME_LENGTH {
        "username too long, max 30 characters"@
    } else {
        "username already exists"@
    }
}

/// The reason the email is refused: the first failing rule, checked in the
/// order empty, too long, malformed, taken.
pub open spec fn email_reason(email: Seq<char>, users: Seq<ProfileData>) -> Seq<char> {
    if email.len() == 0 {
        "email cannot be empty"@
    } else if encode_utf8(email).len() > MAX_EMAIL_LENGTH {
        "email too long, max 100 characters"@
    } else if !email_ok(email) {
        "invalid email format"@
    } else {
        "email already exists"@
    }
}

/// The reason the alias is refused: the first failing rule, checked in the
/// order empty, too long, reserved, taken.
pub open spec fn alias_reason(alias: Seq<char>, users: Seq<ProfileData>) -> Seq<char> {
    if alias.len() == 0 {
        "alias cannot be empty"@
    } else if encode_utf8(alias).len() > MAX_ALIAS_LENGTH {
        "alias too long, max 30 characters"@
    } else if alias == reserved_alias() {
        "alias cannot be 'back'"@
    } else {
        "alias already exists"@
    }
}

/// Accepts the username exactly when [`username_valid`] holds of it against
/// the given collection; otherwise reports the first failing rule.
pub fn validate_input_username(name: &str, existing_users: &Vec<GitUserProfile>) -> (r: Result<
    (),
    AppError,
>)
    ensures
        r is Ok <==> username_valid(name@, profile_views(existing_users@)),
        r matches Err(e) ==> (e matches AppError::Validation(m) && m@ == username_reason(
            name@,
            profile_views(existing_users@),
        )),
{
    if name.is_empty() {
        Err(AppError::Validation(String::from_str("username cannot be empty")))
    } else if name.as_bytes().len() > MAX_USERNAME_LENGTH {
        Err(AppError::Validation(String::from_str("username too long, max 30 characters")))
    } else if holds_username(existing_users, name) {
        Err(AppError::Validation(String::from_str("username already exists")))
    } else {
        Ok(())
    }
}

/// Accepts the email exactly when [`email_valid`] holds of it against the
/// given collection; otherwise reports the first failing rule.
pub fn validate_input_email(email: &str, existing_users: &Vec<GitUserProfile>) -> (r: Result<
    (),
    AppError,
>)
    ensures
        r is Ok <==> email_valid(email@, profile_views(existing_users@)),
        r matches Err(e) ==> (e matches AppError::Validation(m) && m@ == email_reason(
            email@,
            profile_views(existing_users@),
        )),
{
    if email.is_empty() {
        Err(AppError::Validation(String::from_str("email cannot be empty")))
    } else if email.as_bytes().len() > MAX_EMAIL_LENGTH {
        Err(AppError::Validation(String::from_str("email too long, max 100 characters")))
    } else if !check_email_format(email) {
        Err(AppError::Validation(String::from_str("invalid email format")))
    } else if holds_email(existing_users, email) {
        Err(AppError::Validation(String::from_str("email already exists")))
    } else {
        Ok(())
    }
}

/// Accepts the alias exactly when [`alias_valid`] holds of it against the
/// given collection; otherwise reports the first failing rule.
pub fn validate_input_alias(alias: &str, existing_users: &Vec<GitUserProfile>) -> (r: Result<
    (),
    AppError,
>)
    ensures
        r is Ok <==> alias_valid(alias@, profile_views(existing_users@)),
        r matches Err(e) ==> (e matches AppError::Validation(m) && m@ == alias_reason(
            alias@,
            profile_views(existing_users@),
        )),
{
    if alias.is_empty() {
        Err(AppError::Validation(String::from_str("alias cannot be empty")))
    } else if alias.as_bytes().len() > MAX_ALIAS_LENGTH {
        Err(AppError::Validation(String::from_str("alias too long, max 30 characters")))
    } else if str_eq(alias, "back") {
        Err(AppError::Validation(String::from_str("alias cannot be 'back'")))
    } else if holds_alias(existing_users, alias) {
        Err(AppError::Validation(String::from_str("alias already exists")))
    } else {
        Ok(())
    }
}

/// Whether some stored profile already uses the username.
pub fn holds_username(users: &Vec<GitUserProfile>, name: &str) -> (r: bool)
    ensures
        r == has_username(profile_views(users@), name@),
{
    let ghost views = profile_views(users@);
    let n = users.len();
    let mut i: usize = 0;
    while i < n
        invariant
            0 <= i <= n,
            n == users@.len(),
            views == profile_views(users@),
            forall|j: int| 0 <= j < i ==> (#[trigger] views[j]).username != name@,
        decreases n - i,
    {
        if str_eq(users[i].git_username.as_str(), name) {
            assert(views[i as int].username == name@);
            return true;
        }
        i = i + 1;
    }
    false
}

/// Whether some stored profile already uses the email.
pub fn holds_email(users: &Vec<GitUserProfile>, email: &str) -> (r: bool)
    ensures
        r == has_email(profile_views(users@), email@),
{
    let ghost views = profile_views(users@);
    let n = users.len();
    let mut i: usize = 0;
    while i < n
        invariant
            0 <= i <= n,
            n == users@.len(),
            views == profile_views(users@),
            forall|j: int| 0 <= j < i ==> (#[trigger] views[j]).email != email@,
        decreases n - i,
    {
        if str_eq(users[i].git_email.as_str(), email) {
            assert(views[i as int].email == email@);
            return true;
        }
        i = i + 1;
    }
    false
}

/// Whether some stored profile already uses the alias.
pub fn holds_alias(users: &Vec<GitUserProfile>, alias: &str) -> (r: bool)
    ensures
        r == has_alias(profile_views(users@), alias@),
{
    let ghost views = profile_views(users@);
    let n = users.len();
    let mut i: usize = 0;
    while i < n
        invariant
            0 <= i <= n,
            n == users@.len(),
            views == profile_views(users@),
            forall|j: int| 0 <= j < i ==> (#[trigger] views[j]).alias != alias@,
        decreases n - i,
    {
        if str_eq(users[i].user_alias.as_str(), alias) {
            assert(views[i as int].alias == alias@);
            return true;
        }
        i = i + 1;
    }
    false
}

} // verus!

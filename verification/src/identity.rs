use vstd::prelude::*;

use crate::error::AppError;
use crate::profile::{GitUserProfile, ProfileData, first_alias_match, has_alias, profile_views,
    unique_profiles};
use crate::text::str_eq;
use crate::validation::{alias_reason, alias_valid, email_reason, email_valid, reserved_alias,
    username_reason, username_valid, validate_input_alias, validate_input_email,
    validate_input_username};

verus! {

broadcast use crate::profile::lemma_profile_views_len, crate::profile::lemma_profile_views_index;

/// One `git config` assignment the caller must perform: set `key` to `value`.
#[derive(Debug)]
pub struct GitConfigSet {
    /// The configuration key, `user.name` or `user.email`.
    pub key: String,
    /// The value to store under the key.
    pub value: String,
}

impl View for GitConfigSet {
    type V = (Seq<char>, Seq<char>);

    open spec fn view(&self) -> (Seq<char>, Seq<char>) {
        (self.key@, self.value@)
    }
}

/// The assignments as their mathematical content, element by element.
pub open spec fn command_views(s: Seq<GitConfigSet>) -> Seq<(Seq<char>, Seq<char>)> {
    s.map_values(|c: GitConfigSet| c@)
}

/// The two assignments that switching to a profile performs: first the
/// username under `user.name`, then the email under `user.email`.
pub open spec fn switch_commands(p: ProfileData) -> Seq<(Seq<char>, Seq<char>)> {
    seq![("user.name"@, p.username), ("user.email"@, p.email)]
}

/// The reason an addition is refused: of the three checks, run in the order
/// username, email, alias, the first that fails.
pub open spec fn add_reason(
    name: Seq<char>,
    email: Seq<char>,
    alias: Seq<char>,
    users: Seq<ProfileData>,
) -> Seq<char> {
    if !username_valid(name, users) {
        username_reason(name, users)
    } else if !email_valid(email, users) {
        email_reason(email, users)
    } else {
        alias_reason(alias, users)
    }
}

/// Appends a new profile after validating all three fields against the
/// current collection.  Succeeds exactly when every rule passes; a refused
/// call reports the first failing rule and leaves the collection unchanged.
/// A collection without shared aliases, usernames or emails stays that way,
/// and the reserved alias is always refused.
pub fn add_user(
    users: &mut Vec<GitUserProfile>,
    git_username: &str,
    git_email: &str,
    user_alias: &str,
) -> (r: Result<(), AppError>)
    ensures
        ({
            let views = profile_views(old(users)@);
            &&& r is Ok <==> (username_valid(git_username@, views) && email_valid(
                git_email@,
                views,
            ) && alias_valid(user_alias@, views))
            &&& r is Ok ==> profile_views(final(users)@) == views.push(
                ProfileData { username: git_username@, email: git_email@, alias: user_alias@ },
            )
            &&& r is Err ==> final(users)@ == old(users)@
            &&& r matches Err(e) ==> (e matches AppError::Validation(m) && m@ == add_reason(
                git_username@,
                git_email@,
                user_alias@,
                views,
            ))
            &&& user_alias@ == reserved_alias() ==> r is Err
            &&& unique_profiles(views) ==> unique_profiles(profile_views(final(users)@))
        }),
{
    let ghost views = profile_views(users@);
    match validate_input_username(git_username, users) {
        Err(e) => {
            return Err(e);
        },
        Ok(()) => {},
    }
    match validate_input_email(git_email, users) {
        Err(e) => {
            return Err(e);
        },
        Ok(()) => {},
    }
    match validate_input_alias(user_alias, users) {
        Err(e) => {
            return Err(e);
        },
        Ok(()) => {},
    }
    let p = GitUserProfile {
        git_username: String::from_str(git_username),
        git_email: String::from_str(git_email),
        user_alias: String::from_str(user_alias),
    };
    let ghost pd = ProfileData { username: git_username@, email: git_email@, alias: user_alias@ };
    users.push(p);
    proof {
        assert(profile_views(users@) =~= views.push(pd));
        if unique_profiles(views) {
            let new_views = profile_views(users@);
            assert forall|i: int, j: int| 0 <= i < j < new_views.len() implies #[trigger] new_views[i].alias
                != #[trigger] new_views[j].alias && new_views[i].username != new_views[j].username
                && new_views[i].email != new_views[j].email by {
                if j == new_views.len() - 1 {
                    assert(!(0 <= i < views.len() && views[i].username == pd.username));
                    assert(!(0 <= i < views.len() && views[i].email == pd.email));
                    assert(!(0 <= i < views.len() && views[i].alias == pd.alias));
                }
            }
        }
    }
    Ok(())
}

/// The collection with every profile under the alias kept out.
pub open spec fn keeps_alias(alias: Seq<char>) -> spec_fn(ProfileData) -> bool {
    |p: ProfileData| p.alias != alias
}

/// Removes every profile stored under the alias.  An empty collection is
/// refused before anything else; an alias no profile has is reported, and the
/// collection is then left unchanged.
pub fn delete_user(users: &mut Vec<GitUserProfile>, user_alias: &str) -> (r: Result<(), AppError>)
    ensures
        ({
            let views = profile_views(old(users)@);
            &&& old(users)@.len() == 0 ==> (r matches Err(e) && e is NoUsers && final(users)@
                == old(users)@)
            &&& old(users)@.len() > 0 && !has_alias(views, user_alias@) ==> (r matches Err(e)
                && e matches AppError::UserNotFound(a) && a@ == user_alias@ && final(users)@
                == old(users)@)
            &&& old(users)@.len() > 0 && has_alias(views, user_alias@) ==> (r is Ok
                && profile_views(final(users)@) == views.filter(keeps_alias(user_alias@)))
        }),
{
    if users.len() == 0 {
        return Err(AppError::NoUsers);
    }
    let ghost views = profile_views(users@);
    let ghost pred = keeps_alias(user_alias@);
    let n = users.len();
    let mut kept: Vec<GitUserProfile> = Vec::new();
    let mut found = false;
    let mut i: usize = 0;
    proof {
        assert(views.subrange(0, 0).filter(pred) =~= profile_views(kept@)) by {
            reveal(Seq::filter);
        }
    }
    while i < n
        invariant
            0 <= i <= n,
            n == users@.len(),
            views == profile_views(users@),
            pred == keeps_alias(user_alias@),
            found == has_alias(views.subrange(0, i as int), user_alias@),
            profile_views(kept@) == views.subrange(0, i as int).filter(pred),
        decreases n - i,
    {
        let ghost pre = views.subrange(0, i as int);
        let ghost post = views.subrange(0, i as int + 1);
        if str_eq(users[i].user_alias.as_str(), user_alias) {
            found = true;
        } else {
            kept.push(users[i].clone());
        }
        proof {
            assert(post.drop_last() =~= pre);
            reveal(Seq::filter);
            if views[i as int].alias == user_alias@ {
                assert(has_alias(post, user_alias@)) by {
                    assert(post[i as int].alias == user_alias@);
                }
                assert(post.filter(pred) == pre.filter(pred));
            } else {
                assert(post.filter(pred) == pre.filter(pred).push(views[i as int]));
                assert(profile_views(kept@) =~= pre.filter(pred).push(views[i as int]));
                assert(has_alias(post, user_alias@) == has_alias(pre, user_alias@)) by {
                    if has_alias(post, user_alias@) {
                        let k = choose|k: int|
                            0 <= k < post.len() && (#[trigger] post[k]).alias == user_alias@;
                        assert(k < i as int);
                        assert(pre[k].alias == user_alias@);
                    } else {
                        if has_alias(pre, user_alias@) {
                            let k = choose|k: int|
                                0 <= k < pre.len() && (#[trigger] pre[k]).alias == user_alias@;
                            assert(post[k].alias == user_alias@);
                        }
                    }
                }
            }
        }
        i = i + 1;
    }
    proof {
        assert(views.subrange(0, n as int) =~= views);
    }
    if !found {
        return Err(AppError::UserNotFound(String::from_str(user_alias)));
    }
    *users = kept;
    Ok(())
}

/// The stored profiles for display, in insertion order.  An empty collection
/// is refused.
pub fn list_all_users(users: &Vec<GitUserProfile>) -> (r: Result<Vec<GitUserProfile>, AppError>)
    ensures
        users@.len() == 0 ==> (r matches Err(e) && e is NoUsers),
        users@.len() > 0 ==> (r matches Ok(v) && profile_views(v@) == profile_views(users@)),
{
    if users.len() == 0 {
        return Err(AppError::NoUsers);
    }
    let n = users.len();
    let mut v: Vec<GitUserProfile> = Vec::new();
    let mut i: usize = 0;
    while i < n
        invariant
            0 <= i <= n,
            n == users@.len(),
            profile_views(v@) == profile_views(users@).subrange(0, i as int),
        decreases n - i,
    {
        let ghost v_old = v@;
        let p = users[i].clone();
        assert(p@ == users@[i as int]@);
        v.push(p);
        proof {
            assert(profile_views(v_old).len() == i as int);
            assert(v@ == v_old.push(p));
            assert forall|j: int| 0 <= j < v@.len() implies profile_views(v@)[j] == profile_views(
                users@,
            ).subrange(0, i as int + 1)[j] by {
                if j < i as int {
                    assert(profile_views(v_old)[j] == profile_views(users@).subrange(0, i as int)[j]);
                } else {
                    assert(v@[j] == p);
                }
            }
            assert(profile_views(v@) =~= profile_views(users@).subrange(0, i as int + 1));
        }
        i = i + 1;
    }
    proof {
        assert(profile_views(users@).subrange(0, n as int) =~= profile_views(users@));
    }
    Ok(v)
}

/// The position of the first profile stored under the alias, if any.
fn find_alias(users: &Vec<GitUserProfile>, alias: &str) -> (r: Option<usize>)
    ensures
        match r {
            Some(i) => first_alias_match(profile_views(users@), alias@, i as int),
            None => !has_alias(profile_views(users@), alias@),
        },
{
    let ghost views = profile_views(users@);
    let n = users.len();
    let mut i: usize = 0;
    while i < n
        invariant
            0 <= i <= n,
            n == users@.len(),
            views == profile_views(users@),
            forall|j: int| 0 <= j < i ==> (#[trigger] views[j]).alias != alias@,
        decreases n - i,
    {
        if str_eq(users[i].user_alias.as_str(), alias) {
            assert(views[i as int].alias == alias@);
            return Some(i);
        }
        i = i + 1;
    }
    None
}

/// The `git config` assignments that switch the active identity to the first
/// profile stored under the alias: its username first, its email second.  An
/// empty collection, the reserved alias, and an alias no profile has are
/// refused, in that order, with no assignment returned.
pub fn switch_user(users: &Vec<GitUserProfile>, user_alias: &str) -> (r: Result<
    Vec<GitConfigSet>,
    AppError,
>)
    ensures
        ({
            let views = profile_views(users@);
            &&& users@.len() == 0 ==> (r matches Err(e) && e is NoUsers)
            &&& users@.len() > 0 && user_alias@ == reserved_alias() ==> (r matches Err(e)
                && e matches AppError::Validation(m) && m@ == "invalid alias for switching"@)
            &&& users@.len() > 0 && user_alias@ != reserved_alias() && !has_alias(
                views,
                user_alias@,
            ) ==> (r matches Err(e) && e matches AppError::UserNotFound(a) && a@ == user_alias@)
            &&& users@.len() > 0 && user_alias@ != reserved_alias() && has_alias(
                views,
                user_alias@,
            ) ==> (r matches Ok(cmds) && exists|i: int|
                #[trigger] first_alias_match(views, user_alias@, i) && command_views(cmds@)
                    == switch_commands(views[i]))
        }),
{
    let ghost views = profile_views(users@);
    if users.len() == 0 {
        return Err(AppError::NoUsers);
    }
    if str_eq(user_alias, "back") {
        return Err(AppError::Validation(String::from_str("invalid alias for switching")));
    }
    match find_alias(users, user_alias) {
        Some(i) => {
            let mut cmds: Vec<GitConfigSet> = Vec::new();
            cmds.push(
                GitConfigSet {
                    key: String::from_str("user.name"),
                    value: users[i].git_username.clone(),
                },
            );
            cmds.push(
                GitConfigSet {
                    key: String::from_str("user.email"),
                    value: users[i].git_email.clone(),
                },
            );
            proof {
                assert(command_views(cmds@) =~= switch_commands(views[i as int]));
                assert(first_alias_match(views, user_alias@, i as int));
            }
            Ok(cmds)
        },
        None => Err(AppError::UserNotFound(String::from_str(user_alias))),
    }
}

/// The alias of every stored profile, in order, with the reserved
/// back-navigation entry appended for the menu.
pub fn build_alias_list(users: &Vec<GitUserProfile>) -> (r: Vec<String>)
    ensures
        r@.len() == users@.len() + 1,
        forall|i: int|
            0 <= i < users@.len() ==> (#[trigger] r@[i])@ == profile_views(users@)[i].alias,
        r@[users@.len() as int]@ == reserved_alias(),
{
    let n = users.len();
    let mut v: Vec<String> = Vec::new();
    let mut i: usize = 0;
    while i < n
        invariant
            0 <= i <= n,
            n == users@.len(),
            v@.len() == i,
            forall|j: int|
                0 <= j < i ==> (#[trigger] v@[j])@ == profile_views(users@)[j].alias,
        decreases n - i,
    {
        v.push(users[i].user_alias.clone());
        i = i + 1;
    }
    v.push(String::from_str("back"));
    v
}

} // verus!

use vstd::prelude::*;

verus! {

/// One stored git identity: a username and an email under a unique alias.
#[derive(Debug)]
pub struct GitUserProfile {
    /// The value written to `user.name` when this profile is activated.
    pub git_username: String,
    /// The value written to `user.email` when this profile is activated.
    pub git_email: String,
    /// The short name under which the profile is stored and selected.
    pub user_alias: String,
}

/// The mathematical content of a profile: its three fields as character
/// sequences.
#[verifier::ext_equal]
pub ghost struct ProfileData {
    pub username: Seq<char>,
    pub email: Seq<char>,
    pub alias: Seq<char>,
}

impl View for GitUserProfile {
    type V = ProfileData;

    open spec fn view(&self) -> ProfileData {
        ProfileData {
            username: self.git_username@,
            email: self.git_email@,
            alias: self.user_alias@,
        }
    }
}

/// A profile sequence as its mathematical content, element by element.
pub open spec fn profile_views(s: Seq<GitUserProfile>) -> Seq<ProfileData> {
    s.map_values(|p: GitUserProfile| p@)
}

/// The content sequence is as long as the profile sequence.
pub broadcast proof fn lemma_profile_views_len(s: Seq<GitUserProfile>)
    ensures
        #[trigger] profile_views(s).len() == s.len(),
{
}

/// The content sequence holds, position by position, the profiles' content.
pub broadcast proof fn lemma_profile_views_index(s: Seq<GitUserProfile>, i: int)
    requires
        0 <= i < s.len(),
    ensures
        #[trigger] profile_views(s)[i] == s[i]@,
{
}

/// Whether some profile of the collection has this username.
pub open spec fn has_username(users: Seq<ProfileData>, name: Seq<char>) -> bool {
    exists|i: int| 0 <= i < users.len() && (#[trigger] users[i]).username == name
}

/// Whether some profile of the collection has this email.
pub open spec fn has_email(users: Seq<ProfileData>, email: Seq<char>) -> bool {
    exists|i: int| 0 <= i < users.len() && (#[trigger] users[i]).email == email
}

/// Whether some profile of the collection has this alias.
pub open spec fn has_alias(users: Seq<ProfileData>, alias: Seq<char>) -> bool {
    exists|i: int| 0 <= i < users.len() && (#[trigger] users[i]).alias == alias
}

/// Whether `i` is the position of the first profile stored under the alias.
pub open spec fn first_alias_match(users: Seq<ProfileData>, alias: Seq<char>, i: int) -> bool {
    &&& 0 <= i < users.len()
    &&& users[i].alias == alias
    &&& forall|j: int| 0 <= j < i ==> (#[trigger] users[j]).alias != alias
}

/// No two profiles of the collection share an alias, a username or an email.
pub open spec fn unique_profiles(s: Seq<ProfileData>) -> bool {
    forall|i: int, j: int|
        0 <= i < j < s.len() ==> #[trigger] s[i].alias != #[trigger] s[j].alias
            && s[i].username != s[j].username && s[i].email != s[j].email
}

impl Clone for GitUserProfile {
    fn clone(&self) -> (r: Self)
        ensures
            r@ == self@,
    {
        GitUserProfile {
            git_username: self.git_username.clone(),
            git_email: self.git_email.clone(),
            user_alias: self.user_alias.clone(),
        }
    }
}

} // verus!

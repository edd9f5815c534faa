use vstd::prelude::*;

use crate::decode::from_json_str;
use crate::encode::to_json_string;
use crate::error::AppError;
use crate::json::{json_of, parse_profiles};
use crate::profile::{GitUserProfile, profile_views};
use crate::text::{spec_trim, trim};

verus! {

/// The path of the stored file: the home directory, as the surrounding
/// program resolved it, with the file's name appended.  A home directory that
/// could not be determined is a configuration error.
pub fn get_global_profile_path(home_dir: Option<String>) -> (r: Result<String, AppError>)
    ensures
        match home_dir {
            Some(h) => r matches Ok(p) && p@ == h@ + "/user_profiles.json"@,
            None => r matches Err(e) && e is Config,
        },
{
    match home_dir {
        Some(h) => Ok(h.concat("/user_profiles.json")),
        None => Err(AppError::Config(String::from_str("failed to find the home directory"))),
    }
}

/// The collection the stored file holds.  A file that does not exist (`None`)
/// or holds only whitespace is an empty collection; anything else must parse
/// as the JSON array of profiles.
pub fn load_users(contents: Option<&str>) -> (r: Result<Vec<GitUserProfile>, AppError>)
    ensures
        ({
            match contents {
                None => r matches Ok(v) && v@.len() == 0,
                Some(s) => {
                    if spec_trim(s@).len() == 0 {
                        r matches Ok(v) && v@.len() == 0
                    } else {
                        match parse_profiles(s@) {
                            Some(views) => r matches Ok(v) && profile_views(v@) == views,
                            None => r matches Err(e) && e is Parse,
                        }
                    }
                },
            }
        }),
{
    match contents {
        None => Ok(Vec::new()),
        Some(s) => {
            let t = trim(s);
            if t.as_str().is_empty() {
                Ok(Vec::new())
            } else {
                from_json_str(s)
            }
        },
    }
}

/// The text under which the collection is stored: the pretty-printed JSON
/// array that [`json_of`] describes.  The surrounding program writes it over
/// the stored file whole.
pub fn save_users(users: &Vec<GitUserProfile>) -> (r: String)
    ensures
        r@ == json_of(profile_views(users@)),
{
    to_json_string(users)
}

/// Accepts exactly a non-empty collection; the operations that need stored
/// profiles call this first so that an empty store is reported one way.
pub fn check_if_users_exist(users: &Vec<GitUserProfile>) -> (r: Result<(), AppError>)
    ensures
        r is Ok <==> users@.len() > 0,
        r matches Err(e) ==> e is NoUsers,
{
    if users.is_empty() {
        Err(AppError::NoUsers)
    } else {
        Ok(())
    }
}

} // verus!

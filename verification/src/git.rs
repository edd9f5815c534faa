use vstd::prelude::*;

use crate::error::AppError;
use crate::text::{spec_trim, str_eq, trim};

verus! {

/// What a finished `git` subprocess reported: whether it exited successfully,
/// and its standard output and standard error decoded as text.  The
/// surrounding program runs the subprocess and fills this in.
pub struct GitOutput {
    /// Whether the process exited with status zero.
    pub success: bool,
    /// The decoded standard output.
    pub stdout: String,
    /// The decoded standard error.
    pub stderr: String,
}

/// The result of `git config --get <key>`: the raw standard output on
/// success, otherwise a command error holding the trimmed standard error.
pub fn interpret_get_output(out: &GitOutput) -> (r: Result<String, AppError>)
    ensures
        out.success ==> (r matches Ok(v) && v@ == out.stdout@),
        !out.success ==> (r matches Err(e) && e matches AppError::GitCommand(m) && m@ == spec_trim(
            out.stderr@,
        )),
{
    if out.success {
        Ok(out.stdout.clone())
    } else {
        Err(AppError::GitCommand(trim(out.stderr.as_str())))
    }
}

/// The result of `git config <key> <value>`: nothing on success, otherwise a
/// command error holding the trimmed standard error.
pub fn interpret_set_output(out: &GitOutput) -> (r: Result<(), AppError>)
    ensures
        out.success ==> r is Ok,
        !out.success ==> (r matches Err(e) && e matches AppError::GitCommand(m) && m@ == spec_trim(
            out.stderr@,
        )),
{
    if out.success {
        Ok(())
    } else {
        Err(AppError::GitCommand(trim(out.stderr.as_str())))
    }
}

/// The result of `git rev-parse --is-inside-work-tree`: on success, whether
/// the trimmed standard output reads `true`; otherwise a command error
/// holding the trimmed standard error.
pub fn interpret_repo_check(out: &GitOutput) -> (r: Result<bool, AppError>)
    ensures
        out.success ==> (r matches Ok(b) && b == (spec_trim(out.stdout@) == "true"@)),
        !out.success ==> (r matches Err(e) && e matches AppError::GitCommand(m) && m@ == spec_trim(
            out.stderr@,
        )),
{
    if out.success {
        let trimmed = trim(out.stdout.as_str());
        Ok(str_eq(trimmed.as_str(), "true"))
    } else {
        Err(AppError::GitCommand(trim(out.stderr.as_str())))
    }
}

/// The pair shown for the active identity: the raw `user.name` and
/// `user.email` outputs with surrounding whitespace removed.
pub fn current_profile(name_raw: &str, email_raw: &str) -> (r: (String, String))
    ensures
        r.0@ == spec_trim(name_raw@),
        r.1@ == spec_trim(email_raw@),
{
    (trim(name_raw), trim(email_raw))
}

} // verus!

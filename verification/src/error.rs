use vstd::prelude::*;

verus! {

/// The error kinds that the operations of this library report.
///
/// Callers branch on the variant, never on a formatted message.
#[derive(Debug)]
pub enum AppError {
    /// A file read or write failed; holds the reported reason.
    Io(String),
    /// The stored file held text that is not a JSON array of profiles.
    Parse(String),
    /// The home directory could not be determined.
    Config(String),
    /// A git invocation exited with a non-zero status; holds its trimmed
    /// standard error text.
    GitCommand(String),
    /// An input failed a validation rule; holds a human-readable reason.
    Validation(String),
    /// No stored profile had the requested alias; holds that alias.
    UserNotFound(String),
    /// The profile store is empty.
    NoUsers,
    /// The working directory is not inside a git repository.
    NotInRepository,
    /// Subprocess output was not valid UTF-8.
    Encoding(String),
}

impl AppError {
    /// A short label for the error kind, for display by the surrounding
    /// program.
    pub fn kind_label(&self) -> (r: &'static str)
        ensures
            r@ == match self {
                AppError::Io(_) => "i/o error"@,
                AppError::Parse(_) => "parse error"@,
                AppError::Config(_) => "config error"@,
                AppError::GitCommand(_) => "git command failed"@,
                AppError::Validation(_) => "validation error"@,
                AppError::UserNotFound(_) => "user alias not found"@,
                AppError::NoUsers => "no users found"@,
                AppError::NotInRepository => "not in git repository"@,
                AppError::Encoding(_) => "UTF-8 error"@,
            },
    {
        match self {
            AppError::Io(_) => "i/o error",
            AppError::Parse(_) => "parse error",
            AppError::Config(_) => "config error",
            AppError::GitCommand(_) => "git command failed",
            AppError::Validation(_) => "validation error",
            AppError::UserNotFound(_) => "user alias not found",
            AppError::NoUsers => "no users found",
            AppError::NotInRepository => "not in git repository",
            AppError::Encoding(_) => "UTF-8 error",
        }
    }
}

} // verus!

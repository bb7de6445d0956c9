//! Error type of the library.

use vstd::prelude::*;
use crate::text::concat;

verus! {

/// Errors reported by the library.
///
/// Operating-system and I/O failures are carried as the message text that
/// the caller obtained for them.
#[derive(Debug)]
pub enum AppError {
    /// Operating-system API failure (message text).
    Win32(String),
    /// Standard I/O failure (message text).
    Io(String),
    /// Invalid command-line argument (triggers usage display and exit 1).
    InvalidArg(String),
    /// The given path does not exist.
    PathNotFound(String),
}

/// The text shown to the user for an error.
pub open spec fn error_text(e: AppError) -> Seq<char> {
    match e {
        AppError::Win32(m) => m@,
        AppError::Io(m) => m@,
        AppError::InvalidArg(m) => m@,
        AppError::PathNotFound(p) => "Error:   "@ + p@ + " does not exist"@,
    }
}

/// The message of an invalid-argument error; `None` for other errors.
pub open spec fn invalid_arg_message(e: AppError) -> Option<Seq<char>> {
    match e {
        AppError::InvalidArg(m) => Some(m@),
        _ => None,
    }
}

impl AppError {
    /// The text shown to the user for this error.
    pub fn message(&self) -> (r: String)
        ensures
            r@ == error_text(*self),
    {
        match self {
            AppError::Win32(m) => m.clone(),
            AppError::Io(m) => m.clone(),
            AppError::InvalidArg(m) => m.clone(),
            AppError::PathNotFound(p) => {
                let a = concat("Error:   ", p.as_str());
                let r = concat(a.as_str(), " does not exist");
                r
            },
        }
    }
}

} // verus!

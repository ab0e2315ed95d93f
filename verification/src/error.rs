//! The library's error type.
use vstd::prelude::*;

verus! {

/// Errors reported to the webview. `Other` carries a human-readable message,
/// `NotFound` names what is missing.
#[derive(Debug, Clone)]
pub enum AppError {
    Other(String),
    NotFound(String),
}

impl AppError {
    /// The message carried by the error.
    pub fn message(&self) -> (m: &String)
        ensures
            m == (match self {
                AppError::Other(s) => s,
                AppError::NotFound(s) => s,
            }),
    {
        match self {
            AppError::Other(s) => s,
            AppError::NotFound(s) => s,
        }
    }
}

} // verus!

//! Writes to the system keychain: an own API key or the account session.
//! A blank value clears the entry instead of storing whitespace.
use vstd::prelude::*;

use crate::text::{chars_to_string, trim, trim_str};

verus! {

/// Whether an account session token is stored.
#[derive(Debug, Clone, Copy, PartialEq, Eq)]
pub struct AccountSessionStatus {
    pub present: bool,
}

/// What a keychain write does.
#[derive(Debug, Clone)]
pub enum SecretWrite {
    /// Delete the entry.
    Delete,
    /// Store this (trimmed) value.
    Store(String),
}

/// The write for a submitted value: the value trimmed, or a delete when it
/// is blank.
pub fn secret_write(value: &str) -> (w: SecretWrite)
    ensures
        trim(value@).len() == 0 ==> w is Delete,
        trim(value@).len() > 0 ==> (w matches SecretWrite::Store(s) && s@ == trim(value@)),
{
    let t = trim_str(value);
    if t.len() == 0 {
        SecretWrite::Delete
    } else {
        SecretWrite::Store(chars_to_string(&t))
    }
}

} // verus!

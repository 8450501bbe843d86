//! The keychain of a platform that has none: nothing is stored, nothing is
//! found, and every token stays in the local store.
//!
//! A platform with a keychain puts its own three functions in the place of
//! these.

use crate::error::NoteDeckError;
use vstd::prelude::*;

verus! {

/// Stores nothing and reports success.
pub fn store_token(_account_id: &str, _token: &str) -> (r: Result<(), NoteDeckError>)
    ensures
        r is Ok,
{
    Ok(())
}

/// Finds no token.
pub fn get_token(_account_id: &str) -> (r: Result<Option<String>, NoteDeckError>)
    ensures
        r matches Ok(None),
{
    Ok(None)
}

/// Has nothing to delete and reports success.
pub fn delete_token(_account_id: &str) -> (r: Result<(), NoteDeckError>)
    ensures
        r is Ok,
{
    Ok(())
}

} // verus!

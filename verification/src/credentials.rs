//! The credential broker: which token serves an account, and when the copy
//! in the local store is cleared.
//!
//! Tokens move from the local store into the keychain the first time they
//! are used. The copy in the store is cleared only once the keychain is
//! known to hold the token.

use crate::error::{ErrorView, NoteDeckError};
use crate::models::Account;
use crate::text::concat;
use vstd::prelude::*;

verus! {

/// What is to be done to have the credentials of an account.
#[derive(Debug, Clone, PartialEq, Eq)]
pub enum CredentialPlan {
    /// The keychain holds the token. Where `clear_stored` is set, the local
    /// store still has a copy, which is to be cleared.
    FromKeychain { host: String, token: String, clear_stored: bool },
    /// Only the local store holds the token. It is used; the caller tries
    /// to store it in the keychain and to read it back, and clears the copy
    /// in the store if [`migration_verified`] says so.
    FromStore { host: String, token: String },
}

/// The token that the keychain yielded: a fault of the keychain counts as no
/// token.
pub open spec fn keychain_token(read: Result<Option<String>, NoteDeckError>) -> Option<String> {
    match read {
        Ok(Some(t)) => Some(t),
        _ => None,
    }
}

/// Decides where the credentials of the account `account_id` come from,
/// given its row in the local store, if there is one, and what reading the
/// keychain yielded.
pub fn get_credentials(
    account_id: &str,
    account: Option<&Account>,
    keychain_read: Result<Option<String>, NoteDeckError>,
) -> (r: Result<CredentialPlan, NoteDeckError>)
    ensures
        match account {
            None => r matches Err(e) && e@ == ErrorView::AccountNotFound(account_id@),
            Some(a) => match keychain_token(keychain_read) {
                Some(t) => r == Ok::<CredentialPlan, NoteDeckError>(
                    CredentialPlan::FromKeychain {
                        host: a.host,
                        token: t,
                        clear_stored: a.token@.len() > 0,
                    },
                ),
                None => if a.token@.len() > 0 {
                    r == Ok::<CredentialPlan, NoteDeckError>(
                        CredentialPlan::FromStore { host: a.host, token: a.token },
                    )
                } else {
                    r matches Err(e) && e@ == ErrorView::Auth(
                        "No token found for account "@ + account_id@,
                    )
                },
            },
        },
{
    let a = match account {
        Some(a) => a,
        None => {
            return Err(NoteDeckError::AccountNotFound(account_id.to_owned()));
        },
    };
    let has_stored = !a.token.as_str().is_empty();
    match keychain_read {
        Ok(Some(t)) => Ok(
            CredentialPlan::FromKeychain {
                host: a.host.clone(),
                token: t,
                clear_stored: has_stored,
            },
        ),
        _ => {
            if has_stored {
                Ok(CredentialPlan::FromStore { host: a.host.clone(), token: a.token.clone() })
            } else {
                Err(NoteDeckError::Auth(concat("No token found for account ", account_id)))
            }
        },
    }
}

/// Decides whether the copy of a token in the local store is cleared after
/// an attempt to move it into the keychain: only if storing succeeded and
/// reading back yielded a token.
pub fn migration_verified(
    store: &Result<(), NoteDeckError>,
    read_back: &Result<Option<String>, NoteDeckError>,
) -> (r: bool)
    ensures
        r == (*store is Ok && keychain_token(*read_back) is Some),
{
    match store {
        Ok(_) => match read_back {
            Ok(Some(_)) => true,
            _ => false,
        },
        Err(_) => false,
    }
}

} // verus!

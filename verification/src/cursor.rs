//! Sequential, fallible binding of account roles.
//!
//! Every operation binds its accounts positionally from the ordered list
//! the caller supplied.  The cursor only ever takes the next reference:
//! it never reorders, never searches, and running past the end fails
//! gracefully with [`TokenError::MissingAccount`] instead of indexing
//! out of bounds.

use vstd::prelude::*;

use crate::error::TokenError;
use crate::identity::AccountMeta;

verus! {

/// A position in the caller-supplied account list.
pub struct AccountCursor {
    /// How many references have been taken.
    pub position: usize,
}

impl AccountCursor {
    /// A cursor at the head of the list.
    pub fn new() -> (c: AccountCursor)
        ensures
            c.position == 0,
    {
        AccountCursor { position: 0 }
    }

    /// Takes the next account reference, advancing the cursor; fails with
    /// [`TokenError::MissingAccount`] when the list is exhausted.
    pub fn next_account(&mut self, accounts: &Vec<AccountMeta>) -> (r: Result<
        AccountMeta,
        TokenError,
    >)
        ensures
            old(self).position < accounts@.len() ==> final(self).position == old(self).position + 1
                && r == Ok::<AccountMeta, TokenError>(accounts@[old(self).position as int]),
            old(self).position >= accounts@.len() ==> final(self).position == old(self).position
                && r == Err::<AccountMeta, TokenError>(TokenError::MissingAccount),
    {
        if self.position < accounts.len() {
            let meta = accounts[self.position];
            self.position = self.position + 1;
            Ok(meta)
        } else {
            Err(TokenError::MissingAccount)
        }
    }
}

} // verus!

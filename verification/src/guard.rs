//! Authorization: holding a presented signer against a recorded authority.

use vstd::prelude::*;

use crate::error::TokenError;
use crate::identity::AccountMeta;
use crate::identity::Identity;

verus! {

/// A presented account reference authorizes an operation exactly when it
/// names the recorded authority and the host attests its signature.
pub open spec fn spec_authorized(presented: AccountMeta, authority: Identity) -> bool {
    presented.signer && presented.id == authority
}

/// Rejects with [`TokenError::Unauthorized`] unless `presented` is the
/// recorded `authority` and signed this invocation.
pub fn check_authority(presented: AccountMeta, authority: Identity) -> (r: Result<
    (),
    TokenError,
>)
    ensures
        r == if spec_authorized(presented, authority) {
            Ok::<(), TokenError>(())
        } else {
            Err::<(), TokenError>(TokenError::Unauthorized)
        },
{
    if presented.signer && presented.id == authority {
        Ok(())
    } else {
        Err(TokenError::Unauthorized)
    }
}

} // verus!

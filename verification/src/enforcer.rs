//! The transfer path, which exists to be refused.
//!
//! The wire format gives `Transfer` no operand: this core issues and
//! restricts tokens, it does not move them.  A transfer that survives
//! every restriction succeeds vacuously, carrying nothing; one that
//! touches a frozen account or a non-transferable mint is refused no
//! matter which authority signs, because no override path exists once
//! the restriction holds.

use vstd::prelude::*;

use crate::error::TokenError;
use crate::guard;
use crate::identity::AccountMeta;
use crate::identity::Identity;
use crate::ledger::AccountLedger;
use crate::ledger::TokenAccount;
use crate::mint::Mint;
use crate::mint::MintRegistry;

verus! {

/// What a `Transfer` answers, in the order the checks run: the two
/// accounts must be distinct; the source must be a ledger account,
/// neither frozen nor of a non-transferable mint — the restriction is
/// checked before anything about the destination or the signer, so it
/// holds regardless of both; the destination must be a ledger account
/// and unfrozen; the accounts must share a mint; and the source's owner
/// must have signed.  No outcome ever changes a balance: a permitted
/// transfer carries nothing.
pub open spec fn spec_transfer(
    mints: Map<Identity, Mint>,
    accounts: Map<Identity, TokenAccount>,
    source_id: Identity,
    dest_id: Identity,
    authority: AccountMeta,
) -> Result<(), TokenError> {
    if source_id == dest_id {
        Err(TokenError::AliasedAccount)
    } else if !accounts.contains_key(source_id) {
        Err(TokenError::MintMismatch)
    } else if accounts[source_id].frozen || (mints.contains_key(accounts[source_id].mint)
        && mints[accounts[source_id].mint].non_transferable) {
        Err(TokenError::TransferRestricted)
    } else if !accounts.contains_key(dest_id) {
        Err(TokenError::MintMismatch)
    } else if accounts[dest_id].frozen {
        Err(TokenError::TransferRestricted)
    } else if accounts[source_id].mint != accounts[dest_id].mint {
        Err(TokenError::MintMismatch)
    } else if !guard::spec_authorized(authority, accounts[source_id].owner) {
        Err(TokenError::Unauthorized)
    } else {
        Ok(())
    }
}

/// Applies the restriction policy to a transfer attempt.  Never mutates
/// anything: the ledger is only read, and the result is exactly what
/// [`spec_transfer`] answers.
pub fn transfer(
    registry: &MintRegistry,
    ledger: &AccountLedger,
    source_id: Identity,
    dest_id: Identity,
    authority: AccountMeta,
) -> (r: Result<(), TokenError>)
    requires
        registry.wf(),
        ledger.wf(),
    ensures
        r == spec_transfer(registry@, ledger@, source_id, dest_id, authority),
{
    if source_id == dest_id {
        return Err(TokenError::AliasedAccount);
    }
    let source = match ledger.get_account(source_id) {
        Some(a) => a,
        None => {
            return Err(TokenError::MintMismatch);
        },
    };
    let source_mint_restricted = match registry.get_mint(source.mint) {
        Some(m) => m.non_transferable,
        None => false,
    };
    if source.frozen || source_mint_restricted {
        return Err(TokenError::TransferRestricted);
    }
    let dest = match ledger.get_account(dest_id) {
        Some(a) => a,
        None => {
            return Err(TokenError::MintMismatch);
        },
    };
    if dest.frozen {
        return Err(TokenError::TransferRestricted);
    }
    if source.mint != dest.mint {
        return Err(TokenError::MintMismatch);
    }
    guard::check_authority(authority, source.owner)
}

/// Idempotence of restriction: a transfer from a frozen ledger account,
/// or to a frozen ledger account from any distinct ledger account, fails
/// with `TransferRestricted`, whoever signs; and a repeat of the attempt
/// answers the same, since no outcome of a transfer changes any account.
pub proof fn lemma_frozen_blocks_transfer(
    mints: Map<Identity, Mint>,
    accounts: Map<Identity, TokenAccount>,
    source_id: Identity,
    dest_id: Identity,
    authority: AccountMeta,
)
    requires
        source_id != dest_id,
        accounts.contains_key(source_id),
        accounts[source_id].frozen || (accounts.contains_key(dest_id)
            && accounts[dest_id].frozen),
    ensures
        spec_transfer(mints, accounts, source_id, dest_id, authority) == Err::<
            (),
            TokenError,
        >(TokenError::TransferRestricted),
{
}

/// Non-transferable closure: when a `MintTo` from a non-transferable
/// mint succeeds, the destination is frozen in that same atomic step —
/// there is no reachable in-between state holding the units unfrozen —
/// and from then on every transfer out of the destination, to anyone,
/// and every transfer into it from a ledger account is refused, whoever
/// signs.
pub proof fn lemma_non_transferable_closure(
    mints: Map<Identity, Mint>,
    accounts: Map<Identity, TokenAccount>,
    mint_id: Identity,
    dest_id: Identity,
    authority: AccountMeta,
    amount: u64,
)
    requires
        mints.contains_key(mint_id),
        mints[mint_id].non_transferable,
        crate::ledger::spec_mint_to(mints, accounts, mint_id, dest_id, authority, amount).1
            == Ok::<(), TokenError>(()),
    ensures
        ({
            let after = crate::ledger::spec_mint_to(
                mints,
                accounts,
                mint_id,
                dest_id,
                authority,
                amount,
            ).0;
            &&& after[dest_id].frozen
            &&& forall|other: Identity, signer: AccountMeta|
                other != dest_id ==> spec_transfer(mints, after, dest_id, other, signer) == Err::<
                    (),
                    TokenError,
                >(TokenError::TransferRestricted)
            &&& forall|other: Identity, signer: AccountMeta|
                other != dest_id && after.contains_key(other) ==> spec_transfer(
                    mints,
                    after,
                    other,
                    dest_id,
                    signer,
                ) == Err::<(), TokenError>(TokenError::TransferRestricted)
        }),
{
}

} // verus!

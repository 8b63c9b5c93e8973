//! Token-account records, the ledger that owns them, and minting.

use vstd::prelude::*;

use crate::error::TokenError;
use crate::guard;
use crate::identity::AccountMeta;
use crate::identity::Identity;
use crate::mint::Mint;
use crate::mint::MintRegistry;
use crate::table::Table;

verus! {

/// One holder's balance of one mint.  While `frozen` is true no
/// instruction moves the balance; an account frozen by the
/// non-transferable policy stays frozen, because the core exposes no
/// thaw operation at all.
#[derive(Clone, Copy, Debug, PartialEq, Eq, Structural)]
pub struct TokenAccount {
    /// The holder whose signature authorizes transfers out of the account.
    pub owner: Identity,
    /// The mint whose units the account holds: a key into the registry,
    /// not ownership of the mint record.
    pub mint: Identity,
    /// Units currently held.
    pub balance: u64,
    /// True once the account's balance is immutable.
    pub frozen: bool,
}

/// Owns every token-account record, keyed by the account's identity.
pub struct AccountLedger {
    /// The underlying keyed storage.
    pub table: Table<TokenAccount>,
}

/// The cross-invariant between the two record owners: every ledger
/// account references an initialized mint.
pub open spec fn consistent(
    mints: Map<Identity, Mint>,
    accounts: Map<Identity, TokenAccount>,
) -> bool {
    forall|k: Identity| #[trigger]
        accounts.contains_key(k) ==> mints.contains_key(accounts[k].mint)
}

/// The restriction closure over a whole state: every account holding
/// units of a non-transferable mint is frozen.  Minting establishes it
/// account by account — the freeze rides in the same atomic step as the
/// credit — and no operation ever breaks it.
pub open spec fn restriction_closed(
    mints: Map<Identity, Mint>,
    accounts: Map<Identity, TokenAccount>,
) -> bool {
    forall|k: Identity| #[trigger]
        accounts.contains_key(k) && mints.contains_key(accounts[k].mint)
            && mints[accounts[k].mint].non_transferable && accounts[k].balance > 0
            ==> accounts[k].frozen
}

/// What creating an account record does to the ledger map: the identity
/// must be unused and the mint initialized; the record starts empty and
/// unfrozen.
pub open spec fn spec_create_account(
    mints: Map<Identity, Mint>,
    accounts: Map<Identity, TokenAccount>,
    id: Identity,
    owner: Identity,
    mint_id: Identity,
) -> (Map<Identity, TokenAccount>, Result<(), TokenError>) {
    if accounts.contains_key(id) {
        (accounts, Err(TokenError::AlreadyInitialized))
    } else if !mints.contains_key(mint_id) {
        (accounts, Err(TokenError::MintMismatch))
    } else {
        (
            accounts.insert(
                id,
                TokenAccount { owner, mint: mint_id, balance: 0, frozen: false },
            ),
            Ok(()),
        )
    }
}

/// What a `MintTo` does to the ledger map, in the order the checks run:
/// the destination must not alias the mint slot; the mint must be
/// initialized; the presented authority must be the mint authority and
/// signed; a fresh destination is created holding the minted amount,
/// with its own identity recorded as holder — a host wanting a distinct
/// holder creates the account first; a pre-existing destination must
/// belong to the mint, be unfrozen, and
/// have room for the amount.  On success the credit and, for a
/// non-transferable mint, the freeze of the destination are one atomic
/// step: no reachable state holds the new units unfrozen.
pub open spec fn spec_mint_to(
    mints: Map<Identity, Mint>,
    accounts: Map<Identity, TokenAccount>,
    mint_id: Identity,
    dest_id: Identity,
    authority: AccountMeta,
    amount: u64,
) -> (Map<Identity, TokenAccount>, Result<(), TokenError>) {
    if dest_id == mint_id {
        (accounts, Err(TokenError::AliasedAccount))
    } else if !mints.contains_key(mint_id) {
        (accounts, Err(TokenError::MintMismatch))
    } else if !guard::spec_authorized(authority, mints[mint_id].mint_authority) {
        (accounts, Err(TokenError::Unauthorized))
    } else if !accounts.contains_key(dest_id) {
        (
            accounts.insert(
                dest_id,
                TokenAccount {
                    owner: dest_id,
                    mint: mint_id,
                    balance: amount,
                    frozen: mints[mint_id].non_transferable,
                },
            ),
            Ok(()),
        )
    } else if accounts[dest_id].mint != mint_id {
        (accounts, Err(TokenError::MintMismatch))
    } else if accounts[dest_id].frozen {
        (accounts, Err(TokenError::AccountFrozen))
    } else if accounts[dest_id].balance + amount > u64::MAX {
        (accounts, Err(TokenError::AmountOverflow))
    } else {
        (
            accounts.insert(
                dest_id,
                TokenAccount {
                    owner: accounts[dest_id].owner,
                    mint: mint_id,
                    balance: (accounts[dest_id].balance + amount) as u64,
                    frozen: mints[mint_id].non_transferable,
                },
            ),
            Ok(()),
        )
    }
}

impl View for AccountLedger {
    type V = Map<Identity, TokenAccount>;

    open spec fn view(&self) -> Map<Identity, TokenAccount> {
        self.table@
    }
}

impl AccountLedger {
    /// The ledger files each account at most once.
    pub open spec fn wf(self) -> bool {
        self.table.wf()
    }

    /// A ledger with no accounts.
    pub fn new() -> (r: AccountLedger)
        ensures
            r@ == Map::<Identity, TokenAccount>::empty(),
            r.wf(),
    {
        AccountLedger { table: Table::new() }
    }

    /// Looks up the account filed under `id`.
    pub fn get_account(&self, id: Identity) -> (r: Option<TokenAccount>)
        requires
            self.wf(),
        ensures
            match r {
                Some(a) => self@.contains_key(id) && a == self@[id],
                None => !self@.contains_key(id),
            },
    {
        self.table.get(id)
    }

    /// Creates an empty, unfrozen account for `owner` under the identity
    /// `id`, holding units of `mint_id`.  The identity must be unused and
    /// the mint initialized.
    pub fn create_account(
        &mut self,
        registry: &MintRegistry,
        id: Identity,
        owner: Identity,
        mint_id: Identity,
    ) -> (r: Result<(), TokenError>)
        requires
            old(self).wf(),
            registry.wf(),
        ensures
            final(self).wf(),
            ({
                let (accounts, res) = spec_create_account(registry@, old(self)@, id, owner, mint_id);
                final(self)@ == accounts && r == res
            }),
    {
        if self.table.contains(id) {
            return Err(TokenError::AlreadyInitialized);
        }
        if !registry.contains_mint(mint_id) {
            return Err(TokenError::MintMismatch);
        }
        self.table.upsert(id, TokenAccount { owner, mint: mint_id, balance: 0, frozen: false });
        Ok(())
    }

    /// Credits `amount` units of `mint_id` to `dest_id`, after the checks
    /// that [`spec_mint_to`] lays out, in that order.  For a
    /// non-transferable mint the destination comes out frozen in the same
    /// step that credits it.
    pub fn mint_to(
        &mut self,
        registry: &MintRegistry,
        mint_id: Identity,
        dest_id: Identity,
        authority: AccountMeta,
        amount: u64,
    ) -> (r: Result<(), TokenError>)
        requires
            old(self).wf(),
            registry.wf(),
        ensures
            final(self).wf(),
            ({
                let (accounts, res) = spec_mint_to(
                    registry@,
                    old(self)@,
                    mint_id,
                    dest_id,
                    authority,
                    amount,
                );
                final(self)@ == accounts && r == res
            }),
    {
        if dest_id == mint_id {
            return Err(TokenError::AliasedAccount);
        }
        let mint = match registry.get_mint(mint_id) {
            Some(m) => m,
            None => {
                return Err(TokenError::MintMismatch);
            },
        };
        if let Err(e) = guard::check_authority(authority, mint.mint_authority) {
            return Err(e);
        }
        match self.table.get(dest_id) {
            None => {
                self.table.upsert(
                    dest_id,
                    TokenAccount {
                        owner: dest_id,
                        mint: mint_id,
                        balance: amount,
                        frozen: mint.non_transferable,
                    },
                );
                Ok(())
            },
            Some(dest) => {
                if dest.mint != mint_id {
                    return Err(TokenError::MintMismatch);
                }
                if dest.frozen {
                    return Err(TokenError::AccountFrozen);
                }
                match dest.balance.checked_add(amount) {
                    None => Err(TokenError::AmountOverflow),
                    Some(balance) => {
                        self.table.upsert(
                            dest_id,
                            TokenAccount {
                                owner: dest.owner,
                                mint: mint_id,
                                balance,
                                frozen: mint.non_transferable,
                            },
                        );
                        Ok(())
                    },
                }
            },
        }
    }
}

/// Authority enforcement: a `MintTo` whose presented signer is not the
/// recorded mint authority, or did not sign, fails and leaves every
/// account — in particular the destination balance — unchanged.  When the
/// attempt is otherwise shaped right (no aliasing), the error is exactly
/// `Unauthorized`.
pub proof fn lemma_authority_enforcement(
    mints: Map<Identity, Mint>,
    accounts: Map<Identity, TokenAccount>,
    mint_id: Identity,
    dest_id: Identity,
    authority: AccountMeta,
    amount: u64,
)
    requires
        mints.contains_key(mint_id),
        !guard::spec_authorized(authority, mints[mint_id].mint_authority),
    ensures
        spec_mint_to(mints, accounts, mint_id, dest_id, authority, amount).0 == accounts,
        spec_mint_to(mints, accounts, mint_id, dest_id, authority, amount).1 is Err,
        dest_id != mint_id ==> spec_mint_to(mints, accounts, mint_id, dest_id, authority, amount).1
            == Err::<(), TokenError>(TokenError::Unauthorized),
{
}

/// Overflow guard: a `MintTo` that passes every earlier check but would
/// wrap the destination balance fails with `AmountOverflow` and leaves
/// the balance at its prior value.
pub proof fn lemma_overflow_guard(
    mints: Map<Identity, Mint>,
    accounts: Map<Identity, TokenAccount>,
    mint_id: Identity,
    dest_id: Identity,
    authority: AccountMeta,
    amount: u64,
)
    requires
        dest_id != mint_id,
        mints.contains_key(mint_id),
        guard::spec_authorized(authority, mints[mint_id].mint_authority),
        accounts.contains_key(dest_id),
        accounts[dest_id].mint == mint_id,
        !accounts[dest_id].frozen,
        accounts[dest_id].balance + amount > u64::MAX,
    ensures
        spec_mint_to(mints, accounts, mint_id, dest_id, authority, amount) == (
            accounts,
            Err::<(), TokenError>(TokenError::AmountOverflow),
        ),
        accounts[dest_id].balance == spec_mint_to(
            mints,
            accounts,
            mint_id,
            dest_id,
            authority,
            amount,
        ).0[dest_id].balance,
{
}

/// Minting preserves the cross-invariant: it only ever writes an account
/// that references the (initialized) mint it minted from.
pub proof fn lemma_mint_to_preserves_consistent(
    mints: Map<Identity, Mint>,
    accounts: Map<Identity, TokenAccount>,
    mint_id: Identity,
    dest_id: Identity,
    authority: AccountMeta,
    amount: u64,
)
    requires
        consistent(mints, accounts),
    ensures
        consistent(mints, spec_mint_to(mints, accounts, mint_id, dest_id, authority, amount).0),
{
}

/// Minting preserves the restriction closure: the only account it
/// writes comes out frozen whenever its mint is non-transferable.
pub proof fn lemma_mint_to_preserves_restriction_closed(
    mints: Map<Identity, Mint>,
    accounts: Map<Identity, TokenAccount>,
    mint_id: Identity,
    dest_id: Identity,
    authority: AccountMeta,
    amount: u64,
)
    requires
        restriction_closed(mints, accounts),
    ensures
        restriction_closed(
            mints,
            spec_mint_to(mints, accounts, mint_id, dest_id, authority, amount).0,
        ),
{
}

/// Creating an account preserves the restriction closure: the new
/// record holds nothing.
pub proof fn lemma_create_account_preserves_restriction_closed(
    mints: Map<Identity, Mint>,
    accounts: Map<Identity, TokenAccount>,
    id: Identity,
    owner: Identity,
    mint_id: Identity,
)
    requires
        restriction_closed(mints, accounts),
    ensures
        restriction_closed(mints, spec_create_account(mints, accounts, id, owner, mint_id).0),
{
}

/// Registering one more mint preserves the restriction closure, given
/// the cross-invariant: no existing account can reference the mint that
/// was not there before.
pub proof fn lemma_register_preserves_restriction_closed(
    mints: Map<Identity, Mint>,
    accounts: Map<Identity, TokenAccount>,
    id: Identity,
    mint: Mint,
)
    requires
        consistent(mints, accounts),
        restriction_closed(mints, accounts),
        !mints.contains_key(id),
    ensures
        restriction_closed(mints.insert(id, mint), accounts),
{
    assert forall|k: Identity| #[trigger]
        accounts.contains_key(k) && mints.insert(id, mint).contains_key(accounts[k].mint)
            && mints.insert(id, mint)[accounts[k].mint].non_transferable
            && accounts[k].balance > 0 implies accounts[k].frozen by {
        assert(mints.contains_key(accounts[k].mint));
        assert(accounts[k].mint != id);
    }
}

/// Registering one more mint preserves the cross-invariant: every
/// reference that held before still resolves, since no mint ever leaves
/// the registry.
pub proof fn lemma_register_preserves_consistent(
    mints: Map<Identity, Mint>,
    accounts: Map<Identity, TokenAccount>,
    id: Identity,
    mint: Mint,
)
    requires
        consistent(mints, accounts),
    ensures
        consistent(mints.insert(id, mint), accounts),
{
}

/// Creating an account preserves the cross-invariant for the same reason.
pub proof fn lemma_create_account_preserves_consistent(
    mints: Map<Identity, Mint>,
    accounts: Map<Identity, TokenAccount>,
    id: Identity,
    owner: Identity,
    mint_id: Identity,
)
    requires
        consistent(mints, accounts),
    ensures
        consistent(mints, spec_create_account(mints, accounts, id, owner, mint_id).0),
{
}

} // verus!

//! The top-level entry: decode, bind, authorize, mutate — or refuse.
//!
//! One call of [`process_instruction`] is one invocation.  It validates
//! everything an operation needs before mutating anything, so a failed
//! invocation returns its one error with the state exactly as it was: a
//! caller can retry with corrected input without risk of a double
//! application, because the refused attempt left no trace.
//!
//! The account order per operation is fixed and positional:
//!
//! | Selector | Operation  | Accounts, in order                                        |
//! |----------|------------|-----------------------------------------------------------|
//! | 0        | Initialize | mint slot; rent sysvar; mint authority (signer); freeze authority |
//! | 1        | MintTo     | mint slot; destination; mint authority (signer)           |
//! | 2        | Transfer   | source; destination; source owner (signer)                |
//!
//! The rent sysvar is bound for its position only; its content is the
//! host's business.  The byte-level `Initialize` issues a non-fungible,
//! non-transferable mint: zero decimals, the restriction flag set for the
//! life of the mint, and the third and fourth accounts recorded as its
//! authorities.  Hosts wanting fungible or unrestricted mints call
//! [`MintRegistry::initialize_mint`] directly with their own parameters.

use vstd::prelude::*;

use crate::codec::decode_instruction;
use crate::codec::spec_decode;
use crate::codec::Instruction;
use crate::cursor::AccountCursor;
use crate::enforcer::spec_transfer;
use crate::enforcer::transfer;
use crate::error::TokenError;
use crate::identity::AccountMeta;
use crate::identity::Identity;
use crate::ledger::consistent;
use crate::ledger::lemma_mint_to_preserves_consistent;
use crate::ledger::lemma_register_preserves_consistent;
use crate::ledger::spec_mint_to;
use crate::ledger::AccountLedger;
use crate::ledger::TokenAccount;
use crate::mint::spec_initialize;
use crate::mint::Mint;
use crate::mint::MintRegistry;

verus! {

/// What one invocation does to the two record maps and answers, as a
/// function of the prior state, the account list and the raw buffer.
/// [`process_instruction`] computes exactly this.
pub open spec fn spec_process(
    mints: Map<Identity, Mint>,
    accounts_map: Map<Identity, TokenAccount>,
    metas: Seq<AccountMeta>,
    data: Seq<u8>,
) -> (Map<Identity, Mint>, Map<Identity, TokenAccount>, Result<(), TokenError>) {
    match spec_decode(data) {
        Err(e) => (mints, accounts_map, Err(e)),
        Ok(Instruction::Initialize) => {
            if metas.len() < 4 {
                (mints, accounts_map, Err(TokenError::MissingAccount))
            } else if !metas[2].signer {
                (mints, accounts_map, Err(TokenError::Unauthorized))
            } else {
                let mint = Mint {
                    decimals: 0,
                    mint_authority: metas[2].id,
                    freeze_authority: Some(metas[3].id),
                    non_transferable: true,
                };
                let (mints2, res) = spec_initialize(mints, metas[0].id, mint);
                (mints2, accounts_map, res)
            }
        },
        Ok(Instruction::MintTo { amount }) => {
            if metas.len() < 3 {
                (mints, accounts_map, Err(TokenError::MissingAccount))
            } else {
                let (accounts2, res) = spec_mint_to(
                    mints,
                    accounts_map,
                    metas[0].id,
                    metas[1].id,
                    metas[2],
                    amount,
                );
                (mints, accounts2, res)
            }
        },
        Ok(Instruction::Transfer) => {
            if metas.len() < 3 {
                (mints, accounts_map, Err(TokenError::MissingAccount))
            } else {
                (
                    mints,
                    accounts_map,
                    spec_transfer(mints, accounts_map, metas[0].id, metas[1].id, metas[2]),
                )
            }
        },
    }
}

/// Runs one invocation: decodes `data`, binds `accounts` positionally,
/// checks the presented authority, and applies the operation — all of it
/// exactly as [`spec_process`] states, preserving well-formedness and
/// the registry–ledger cross-invariant.
pub fn process_instruction(
    registry: &mut MintRegistry,
    ledger: &mut AccountLedger,
    accounts: &Vec<AccountMeta>,
    data: &Vec<u8>,
) -> (r: Result<(), TokenError>)
    requires
        old(registry).wf(),
        old(ledger).wf(),
        consistent(old(registry)@, old(ledger)@),
    ensures
        final(registry).wf(),
        final(ledger).wf(),
        consistent(final(registry)@, final(ledger)@),
        ({
            let (mints2, accounts2, res) = spec_process(
                old(registry)@,
                old(ledger)@,
                accounts@,
                data@,
            );
            final(registry)@ == mints2 && final(ledger)@ == accounts2 && r == res
        }),
{
    let instruction = match decode_instruction(data) {
        Ok(instruction) => instruction,
        Err(e) => {
            return Err(e);
        },
    };
    let mut cursor = AccountCursor::new();
    match instruction {
        Instruction::Initialize => {
            let mint_slot = match cursor.next_account(accounts) {
                Ok(meta) => meta,
                Err(e) => {
                    return Err(e);
                },
            };
            let _rent = match cursor.next_account(accounts) {
                Ok(meta) => meta,
                Err(e) => {
                    return Err(e);
                },
            };
            let authority = match cursor.next_account(accounts) {
                Ok(meta) => meta,
                Err(e) => {
                    return Err(e);
                },
            };
            let freeze = match cursor.next_account(accounts) {
                Ok(meta) => meta,
                Err(e) => {
                    return Err(e);
                },
            };
            if !authority.signer {
                return Err(TokenError::Unauthorized);
            }
            let res = registry.initialize_mint(
                mint_slot.id,
                0,
                authority.id,
                Some(freeze.id),
                true,
            );
            proof {
                let mint = Mint {
                    decimals: 0,
                    mint_authority: authority.id,
                    freeze_authority: Some(freeze.id),
                    non_transferable: true,
                };
                lemma_register_preserves_consistent(old(registry)@, ledger@, mint_slot.id, mint);
            }
            res
        },
        Instruction::MintTo { amount } => {
            let mint_slot = match cursor.next_account(accounts) {
                Ok(meta) => meta,
                Err(e) => {
                    return Err(e);
                },
            };
            let dest = match cursor.next_account(accounts) {
                Ok(meta) => meta,
                Err(e) => {
                    return Err(e);
                },
            };
            let authority = match cursor.next_account(accounts) {
                Ok(meta) => meta,
                Err(e) => {
                    return Err(e);
                },
            };
            let res = ledger.mint_to(registry, mint_slot.id, dest.id, authority, amount);
            proof {
                lemma_mint_to_preserves_consistent(
                    registry@,
                    old(ledger)@,
                    mint_slot.id,
                    dest.id,
                    authority,
                    amount,
                );
            }
            res
        },
        Instruction::Transfer => {
            let source = match cursor.next_account(accounts) {
                Ok(meta) => meta,
                Err(e) => {
                    return Err(e);
                },
            };
            let dest = match cursor.next_account(accounts) {
                Ok(meta) => meta,
                Err(e) => {
                    return Err(e);
                },
            };
            let authority = match cursor.next_account(accounts) {
                Ok(meta) => meta,
                Err(e) => {
                    return Err(e);
                },
            };
            transfer(registry, ledger, source.id, dest.id, authority)
        },
    }
}

/// One queued invocation: its ordered account list and its raw buffer.
pub struct Invocation {
    /// The account references supplied with the invocation.
    pub metas: Seq<AccountMeta>,
    /// The raw instruction buffer.
    pub data: Seq<u8>,
}

/// The state after running a whole sequence of invocations, first to
/// last.  Applying it to every prefix of a sequence walks the states an
/// observer between invocations could see.
pub open spec fn spec_run(
    mints: Map<Identity, Mint>,
    accounts_map: Map<Identity, TokenAccount>,
    invocations: Seq<Invocation>,
) -> (Map<Identity, Mint>, Map<Identity, TokenAccount>)
    decreases invocations.len(),
{
    if invocations.len() == 0 {
        (mints, accounts_map)
    } else {
        let step = spec_process(mints, accounts_map, invocations[0].metas, invocations[0].data);
        spec_run(step.0, step.1, invocations.drop_first())
    }
}

/// Every invocation preserves the cross-invariant: whatever it carries,
/// the accounts it leaves behind all reference initialized mints.
pub proof fn lemma_process_preserves_consistent(
    mints: Map<Identity, Mint>,
    accounts_map: Map<Identity, TokenAccount>,
    metas: Seq<AccountMeta>,
    data: Seq<u8>,
)
    requires
        consistent(mints, accounts_map),
    ensures
        ({
            let (mints2, accounts2, res) = spec_process(mints, accounts_map, metas, data);
            consistent(mints2, accounts2)
        }),
{
    match spec_decode(data) {
        Ok(Instruction::Initialize) => {
            if metas.len() >= 4 && metas[2].signer {
                let mint = Mint {
                    decimals: 0,
                    mint_authority: metas[2].id,
                    freeze_authority: Some(metas[3].id),
                    non_transferable: true,
                };
                lemma_register_preserves_consistent(mints, accounts_map, metas[0].id, mint);
            }
        },
        Ok(Instruction::MintTo { amount }) => {
            if metas.len() >= 3 {
                lemma_mint_to_preserves_consistent(
                    mints,
                    accounts_map,
                    metas[0].id,
                    metas[1].id,
                    metas[2],
                    amount,
                );
            }
        },
        _ => {
        },
    }
}

/// A whole run preserves both state invariants.  Instantiated with each
/// prefix of a sequence, it says that every state an observer between
/// invocations could see is consistent and restriction-closed: at no
/// observable point do units of a non-transferable mint sit unfrozen.
pub proof fn lemma_run_preserves_invariants(
    mints: Map<Identity, Mint>,
    accounts_map: Map<Identity, TokenAccount>,
    invocations: Seq<Invocation>,
)
    requires
        consistent(mints, accounts_map),
        crate::ledger::restriction_closed(mints, accounts_map),
    ensures
        ({
            let (mints2, accounts2) = spec_run(mints, accounts_map, invocations);
            consistent(mints2, accounts2) && crate::ledger::restriction_closed(mints2, accounts2)
        }),
    decreases invocations.len(),
{
    if invocations.len() > 0 {
        let step = spec_process(mints, accounts_map, invocations[0].metas, invocations[0].data);
        lemma_process_preserves_consistent(
            mints,
            accounts_map,
            invocations[0].metas,
            invocations[0].data,
        );
        lemma_process_preserves_restriction_closed(
            mints,
            accounts_map,
            invocations[0].metas,
            invocations[0].data,
        );
        lemma_run_preserves_invariants(step.0, step.1, invocations.drop_first());
    }
}

/// A frozen account is terminal: across a whole run of invocations, of
/// any length and content, its record never changes — the core exposes
/// no thaw, and nothing moves a frozen balance.
pub proof fn lemma_run_frozen_record_immutable(
    mints: Map<Identity, Mint>,
    accounts_map: Map<Identity, TokenAccount>,
    invocations: Seq<Invocation>,
    frozen_id: Identity,
)
    requires
        accounts_map.contains_key(frozen_id),
        accounts_map[frozen_id].frozen,
    ensures
        ({
            let (mints2, accounts2) = spec_run(mints, accounts_map, invocations);
            accounts2.contains_key(frozen_id) && accounts2[frozen_id]
                == accounts_map[frozen_id]
        }),
    decreases invocations.len(),
{
    if invocations.len() > 0 {
        let step = spec_process(mints, accounts_map, invocations[0].metas, invocations[0].data);
        lemma_frozen_record_immutable(
            mints,
            accounts_map,
            invocations[0].metas,
            invocations[0].data,
            frozen_id,
        );
        lemma_run_frozen_record_immutable(step.0, step.1, invocations.drop_first(), frozen_id);
    }
}

/// All-or-nothing: an invocation that fails, for any reason at any
/// check, changes neither record map.
pub proof fn lemma_failure_leaves_no_trace(
    mints: Map<Identity, Mint>,
    accounts_map: Map<Identity, TokenAccount>,
    metas: Seq<AccountMeta>,
    data: Seq<u8>,
)
    ensures
        spec_process(mints, accounts_map, metas, data).2 is Err ==> spec_process(
            mints,
            accounts_map,
            metas,
            data,
        ).0 == mints && spec_process(mints, accounts_map, metas, data).1 == accounts_map,
{
}

/// A frozen account is immutable: whatever one invocation carries —
/// any instruction, any account list, any signers — the record of an
/// account that is frozen going in comes out identical, balance and all.
/// Only the absent thaw operation could change that.
pub proof fn lemma_frozen_record_immutable(
    mints: Map<Identity, Mint>,
    accounts_map: Map<Identity, TokenAccount>,
    metas: Seq<AccountMeta>,
    data: Seq<u8>,
    frozen_id: Identity,
)
    requires
        accounts_map.contains_key(frozen_id),
        accounts_map[frozen_id].frozen,
    ensures
        ({
            let after = spec_process(mints, accounts_map, metas, data).1;
            after.contains_key(frozen_id) && after[frozen_id] == accounts_map[frozen_id]
        }),
{
}

/// Every invocation preserves the restriction closure: start from a
/// state where all funded accounts of non-transferable mints are frozen
/// — the empty state is one — and every reachable state is such a state.
pub proof fn lemma_process_preserves_restriction_closed(
    mints: Map<Identity, Mint>,
    accounts_map: Map<Identity, TokenAccount>,
    metas: Seq<AccountMeta>,
    data: Seq<u8>,
)
    requires
        consistent(mints, accounts_map),
        crate::ledger::restriction_closed(mints, accounts_map),
    ensures
        ({
            let (mints2, accounts2, res) = spec_process(mints, accounts_map, metas, data);
            crate::ledger::restriction_closed(mints2, accounts2)
        }),
{
    match spec_decode(data) {
        Ok(Instruction::Initialize) => {
            if metas.len() >= 4 && metas[2].signer && !mints.contains_key(metas[0].id) {
                let mint = Mint {
                    decimals: 0,
                    mint_authority: metas[2].id,
                    freeze_authority: Some(metas[3].id),
                    non_transferable: true,
                };
                crate::ledger::lemma_register_preserves_restriction_closed(
                    mints,
                    accounts_map,
                    metas[0].id,
                    mint,
                );
            }
        },
        Ok(Instruction::MintTo { amount }) => {
            if metas.len() >= 3 {
                crate::ledger::lemma_mint_to_preserves_restriction_closed(
                    mints,
                    accounts_map,
                    metas[0].id,
                    metas[1].id,
                    metas[2],
                    amount,
                );
            }
        },
        _ => {
        },
    }
}

/// An unknown selector never transitions state: the invocation answers
/// `UnknownOpcode` and both record maps stay as they were.
pub proof fn lemma_unknown_selector_no_transition(
    mints: Map<Identity, Mint>,
    accounts_map: Map<Identity, TokenAccount>,
    metas: Seq<AccountMeta>,
    data: Seq<u8>,
)
    requires
        data.len() >= 1,
        data[0] > 2,
    ensures
        spec_process(mints, accounts_map, metas, data) == (
            mints,
            accounts_map,
            Err::<(), TokenError>(TokenError::UnknownOpcode),
        ),
{
}

/// Idempotence of restriction, seen from the entry point: a transfer
/// invocation whose source or destination account is frozen answers
/// `TransferRestricted`, whoever signs, and leaves both record maps
/// untouched.
pub proof fn lemma_frozen_transfer_invocation_rejected(
    mints: Map<Identity, Mint>,
    accounts_map: Map<Identity, TokenAccount>,
    metas: Seq<AccountMeta>,
    data: Seq<u8>,
)
    requires
        spec_decode(data) == Ok::<Instruction, TokenError>(Instruction::Transfer),
        metas.len() >= 3,
        metas[0].id != metas[1].id,
        accounts_map.contains_key(metas[0].id),
        accounts_map.contains_key(metas[1].id),
        accounts_map[metas[0].id].frozen || accounts_map[metas[1].id].frozen,
    ensures
        spec_process(mints, accounts_map, metas, data) == (
            mints,
            accounts_map,
            Err::<(), TokenError>(TokenError::TransferRestricted),
        ),
{
    crate::enforcer::lemma_frozen_blocks_transfer(
        mints,
        accounts_map,
        metas[0].id,
        metas[1].id,
        metas[2],
    );
}

} // verus!

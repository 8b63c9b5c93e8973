use token_ledger::codec::encode_initialize;
use token_ledger::codec::encode_mint_to;
use token_ledger::codec::encode_transfer;
use token_ledger::process_instruction;
use token_ledger::AccountLedger;
use token_ledger::AccountMeta;
use token_ledger::Identity;
use token_ledger::MintRegistry;
use token_ledger::TokenError;

fn meta(id: Identity, signer: bool) -> AccountMeta {
    AccountMeta::new(id, signer)
}

// The fixed account order of the byte-level Initialize: mint slot, rent
// sysvar, mint authority (signer), freeze authority.
fn initialize_accounts(
    mint: Identity,
    rent: Identity,
    authority: Identity,
    freeze: Identity,
) -> Vec<AccountMeta> {
    vec![
        meta(mint, false),
        meta(rent, false),
        meta(authority, true),
        meta(freeze, false),
    ]
}

#[test]
fn test_initialize_mint() {
    let mut registry = MintRegistry::new();
    let mut ledger = AccountLedger::new();
    let mint = Identity::new(1);
    let rent = Identity::new(2);
    let authority = Identity::new(3);
    let freeze = Identity::new(4);
    let accounts = initialize_accounts(mint, rent, authority, freeze);
    let result = process_instruction(&mut registry, &mut ledger, &accounts, &encode_initialize());
    assert_eq!(result, Ok(()));
    let record = registry.get_mint(mint).unwrap();
    assert_eq!(record.decimals, 0);
    assert_eq!(record.mint_authority, authority);
    assert_eq!(record.freeze_authority, Some(freeze));
    assert!(record.non_transferable);
}

#[test]
fn test_initialize_mint_and_mint_token() {
    let mut registry = MintRegistry::new();
    let mut ledger = AccountLedger::new();
    let mint = Identity::new(1);
    let rent = Identity::new(2);
    let authority = Identity::new(3);
    let freeze = Identity::new(4);
    let receiver = Identity::new(5);
    let accounts = initialize_accounts(mint, rent, authority, freeze);
    process_instruction(&mut registry, &mut ledger, &accounts, &encode_initialize()).unwrap();

    let amount: u64 = 1000;
    let mint_accounts = vec![meta(mint, false), meta(receiver, false), meta(authority, true)];
    let result = process_instruction(
        &mut registry,
        &mut ledger,
        &mint_accounts,
        &encode_mint_to(amount),
    );
    assert_eq!(result, Ok(()));
    assert_eq!(ledger.get_account(receiver).unwrap().balance, amount);
}

#[test]
fn non_transferable_nft_lifecycle() {
    // Initialize a zero-decimals, non-transferable mint; mint one unit;
    // the destination holds it frozen; a transfer out is restricted.
    let mut registry = MintRegistry::new();
    let mut ledger = AccountLedger::new();
    let mint = Identity::new(1);
    let rent = Identity::new(2);
    let authority = Identity::new(3);
    let freeze = Identity::new(4);
    let collector = Identity::new(5);
    let buyer = Identity::new(6);

    let accounts = initialize_accounts(mint, rent, authority, freeze);
    process_instruction(&mut registry, &mut ledger, &accounts, &encode_initialize()).unwrap();

    let mint_accounts = vec![meta(mint, false), meta(collector, false), meta(authority, true)];
    process_instruction(&mut registry, &mut ledger, &mint_accounts, &encode_mint_to(1)).unwrap();
    let held = ledger.get_account(collector).unwrap();
    assert_eq!(held.balance, 1);
    assert!(held.frozen);

    let transfer_accounts = vec![
        meta(collector, false),
        meta(buyer, false),
        meta(collector, true),
    ];
    let result = process_instruction(
        &mut registry,
        &mut ledger,
        &transfer_accounts,
        &encode_transfer(),
    );
    assert_eq!(result, Err(TokenError::TransferRestricted));
    assert_eq!(ledger.get_account(collector).unwrap().balance, 1);
}

#[test]
fn bare_mint_selector_mints_one_unit() {
    let mut registry = MintRegistry::new();
    let mut ledger = AccountLedger::new();
    let mint = Identity::new(1);
    let authority = Identity::new(3);
    let receiver = Identity::new(5);
    let accounts = initialize_accounts(mint, Identity::new(2), authority, Identity::new(4));
    process_instruction(&mut registry, &mut ledger, &accounts, &encode_initialize()).unwrap();
    let mint_accounts = vec![meta(mint, false), meta(receiver, false), meta(authority, true)];
    let result = process_instruction(&mut registry, &mut ledger, &mint_accounts, &vec![1]);
    assert_eq!(result, Ok(()));
    assert_eq!(ledger.get_account(receiver).unwrap().balance, 1);
}

#[test]
fn double_initialize_fails_second_time_only() {
    let mut registry = MintRegistry::new();
    let mut ledger = AccountLedger::new();
    let accounts = initialize_accounts(
        Identity::new(1),
        Identity::new(2),
        Identity::new(3),
        Identity::new(4),
    );
    assert_eq!(
        process_instruction(&mut registry, &mut ledger, &accounts, &encode_initialize()),
        Ok(())
    );
    assert_eq!(
        process_instruction(&mut registry, &mut ledger, &accounts, &encode_initialize()),
        Err(TokenError::AlreadyInitialized)
    );
    assert_eq!(registry.get_mint(Identity::new(1)).unwrap().mint_authority, Identity::new(3));
}

#[test]
fn initialize_needs_the_authority_signature() {
    let mut registry = MintRegistry::new();
    let mut ledger = AccountLedger::new();
    let accounts = vec![
        meta(Identity::new(1), false),
        meta(Identity::new(2), false),
        meta(Identity::new(3), false),
        meta(Identity::new(4), false),
    ];
    assert_eq!(
        process_instruction(&mut registry, &mut ledger, &accounts, &encode_initialize()),
        Err(TokenError::Unauthorized)
    );
    assert!(registry.get_mint(Identity::new(1)).is_none());
}

#[test]
fn short_account_list_is_missing_account() {
    let mut registry = MintRegistry::new();
    let mut ledger = AccountLedger::new();
    let three = vec![
        meta(Identity::new(1), false),
        meta(Identity::new(2), false),
        meta(Identity::new(3), true),
    ];
    assert_eq!(
        process_instruction(&mut registry, &mut ledger, &three, &encode_initialize()),
        Err(TokenError::MissingAccount)
    );
    let two = vec![meta(Identity::new(1), false), meta(Identity::new(2), false)];
    assert_eq!(
        process_instruction(&mut registry, &mut ledger, &two, &encode_mint_to(1)),
        Err(TokenError::MissingAccount)
    );
    assert_eq!(
        process_instruction(&mut registry, &mut ledger, &two, &encode_transfer()),
        Err(TokenError::MissingAccount)
    );
}

#[test]
fn aliased_writable_accounts_are_refused() {
    let mut registry = MintRegistry::new();
    let mut ledger = AccountLedger::new();
    let mint = Identity::new(1);
    let authority = Identity::new(3);
    let accounts = initialize_accounts(mint, Identity::new(2), authority, Identity::new(4));
    process_instruction(&mut registry, &mut ledger, &accounts, &encode_initialize()).unwrap();
    let mint_accounts = vec![meta(mint, false), meta(mint, false), meta(authority, true)];
    assert_eq!(
        process_instruction(&mut registry, &mut ledger, &mint_accounts, &encode_mint_to(1)),
        Err(TokenError::AliasedAccount)
    );
}

#[test]
fn unknown_selector_transitions_nothing() {
    let mut registry = MintRegistry::new();
    let mut ledger = AccountLedger::new();
    let accounts = initialize_accounts(
        Identity::new(1),
        Identity::new(2),
        Identity::new(3),
        Identity::new(4),
    );
    assert_eq!(
        process_instruction(&mut registry, &mut ledger, &accounts, &vec![7]),
        Err(TokenError::UnknownOpcode)
    );
    assert!(registry.get_mint(Identity::new(1)).is_none());
}

#[test]
fn frozen_record_survives_every_attempt() {
    let mut registry = MintRegistry::new();
    let mut ledger = AccountLedger::new();
    let mint = Identity::new(1);
    let authority = Identity::new(3);
    let holder = Identity::new(5);
    let other = Identity::new(6);
    let accounts = initialize_accounts(mint, Identity::new(2), authority, Identity::new(4));
    process_instruction(&mut registry, &mut ledger, &accounts, &encode_initialize()).unwrap();
    let mint_accounts = vec![meta(mint, false), meta(holder, false), meta(authority, true)];
    process_instruction(&mut registry, &mut ledger, &mint_accounts, &encode_mint_to(1)).unwrap();
    let frozen = ledger.get_account(holder).unwrap();
    assert!(frozen.frozen);

    // Mint more into it, transfer out of it, transfer into it: every
    // attempt fails and the record comes through untouched.
    let attempts: Vec<(Vec<AccountMeta>, Vec<u8>)> = vec![
        (mint_accounts.clone(), encode_mint_to(7)),
        (
            vec![meta(holder, false), meta(other, false), meta(holder, true)],
            encode_transfer(),
        ),
        (
            vec![meta(other, false), meta(holder, false), meta(authority, true)],
            encode_transfer(),
        ),
    ];
    for (accounts, data) in attempts {
        assert!(process_instruction(&mut registry, &mut ledger, &accounts, &data).is_err());
        assert_eq!(ledger.get_account(holder).unwrap(), frozen);
    }
}

#[test]
fn unauthorized_mint_leaves_balance_unchanged() {
    let mut registry = MintRegistry::new();
    let mut ledger = AccountLedger::new();
    let mint = Identity::new(1);
    let authority = Identity::new(3);
    let receiver = Identity::new(5);
    let intruder = Identity::new(6);
    let accounts = initialize_accounts(mint, Identity::new(2), authority, Identity::new(4));
    process_instruction(&mut registry, &mut ledger, &accounts, &encode_initialize()).unwrap();
    let good = vec![meta(mint, false), meta(receiver, false), meta(authority, true)];
    process_instruction(&mut registry, &mut ledger, &good, &encode_mint_to(1)).unwrap();
    let bad = vec![meta(mint, false), meta(receiver, false), meta(intruder, true)];
    assert_eq!(
        process_instruction(&mut registry, &mut ledger, &bad, &encode_mint_to(1)),
        Err(TokenError::Unauthorized)
    );
    assert_eq!(ledger.get_account(receiver).unwrap().balance, 1);
}

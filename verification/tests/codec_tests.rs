use token_ledger::codec::decode_instruction;
use token_ledger::codec::encode_initialize;
use token_ledger::codec::encode_mint_to;
use token_ledger::codec::encode_transfer;
use token_ledger::Instruction;
use token_ledger::TokenError;

#[test]
fn amount_zero_round_trips() {
    let buffer = encode_mint_to(0);
    assert_eq!(buffer.len(), 9);
    assert_eq!(decode_instruction(&buffer), Ok(Instruction::MintTo { amount: 0 }));
}

#[test]
fn amount_one_round_trips() {
    let buffer = encode_mint_to(1);
    assert_eq!(buffer, vec![1, 1, 0, 0, 0, 0, 0, 0, 0]);
    assert_eq!(decode_instruction(&buffer), Ok(Instruction::MintTo { amount: 1 }));
}

#[test]
fn amount_max_round_trips() {
    let buffer = encode_mint_to(u64::MAX);
    assert_eq!(decode_instruction(&buffer), Ok(Instruction::MintTo { amount: u64::MAX }));
}

#[test]
fn amount_bytes_are_little_endian() {
    let buffer = encode_mint_to(0x0102030405060708);
    assert_eq!(buffer, vec![1, 0x08, 0x07, 0x06, 0x05, 0x04, 0x03, 0x02, 0x01]);
    assert_eq!(
        decode_instruction(&buffer),
        Ok(Instruction::MintTo { amount: 0x0102030405060708 })
    );
}

#[test]
fn bare_mint_selector_means_one_unit() {
    assert_eq!(decode_instruction(&vec![1]), Ok(Instruction::MintTo { amount: 1 }));
}

#[test]
fn truncated_amount_is_malformed() {
    for len in 2..9 {
        let mut buffer = vec![1u8];
        buffer.resize(len, 0);
        assert_eq!(decode_instruction(&buffer), Err(TokenError::MalformedInstruction));
    }
}

#[test]
fn empty_buffer_is_malformed() {
    assert_eq!(decode_instruction(&vec![]), Err(TokenError::MalformedInstruction));
}

#[test]
fn unknown_selector_is_refused() {
    assert_eq!(decode_instruction(&vec![3]), Err(TokenError::UnknownOpcode));
    assert_eq!(decode_instruction(&vec![255, 1, 2, 3]), Err(TokenError::UnknownOpcode));
}

#[test]
fn selector_only_operations_decode() {
    assert_eq!(decode_instruction(&encode_initialize()), Ok(Instruction::Initialize));
    assert_eq!(decode_instruction(&encode_transfer()), Ok(Instruction::Transfer));
    assert_eq!(decode_instruction(&vec![0, 9, 9]), Ok(Instruction::Initialize));
}

#[test]
fn error_codes_are_distinct_small_integers() {
    let errors = [
        TokenError::MalformedInstruction,
        TokenError::UnknownOpcode,
        TokenError::MissingAccount,
        TokenError::AliasedAccount,
        TokenError::AlreadyInitialized,
        TokenError::Unauthorized,
        TokenError::AmountOverflow,
        TokenError::MintMismatch,
        TokenError::TransferRestricted,
        TokenError::AccountFrozen,
    ];
    for (i, e) in errors.iter().enumerate() {
        assert_eq!(e.code(), (i + 1) as u32);
    }
}

//! Decoding untrusted instruction buffers, and building well-formed ones.
//!
//! Byte 0 of a buffer selects the operation.  An unknown selector is a
//! decode-time error, never a silent no-op.  Where an operation carries
//! an amount, the operand is eight little-endian bytes following the
//! selector; a truncated operand is refused rather than read out of
//! bounds, and an absent one defaults to a single unit, the non-fungible
//! case.  Decoding is pure: it reads the buffer and nothing else.

use vstd::bytes::lemma_auto_spec_u64_to_from_le_bytes;
use vstd::bytes::spec_u64_from_le_bytes;
use vstd::bytes::spec_u64_to_le_bytes;
use vstd::bytes::u64_from_le_bytes;
use vstd::bytes::u64_to_le_bytes;
use vstd::prelude::*;
use vstd::slice::slice_subrange;

use crate::error::TokenError;

verus! {

/// A decoded request: constructed per invocation, consumed once, never
/// persisted.
#[derive(Clone, Copy, Debug, PartialEq, Eq, Structural)]
pub enum Instruction {
    /// Selector 0: populate a mint slot.  No operand.
    Initialize,
    /// Selector 1: credit freshly issued units to a destination.  The
    /// operand is the amount; a buffer of just the selector means one
    /// unit, exactly as valid as an explicit eight-byte 1.
    MintTo {
        /// How many units to issue.
        amount: u64,
    },
    /// Selector 2: attempt to move units between two accounts.  No
    /// operand.
    Transfer,
}

/// What a buffer decodes to.  Every outcome of the core's decoder is an
/// application of this function to the bytes it was handed.
pub open spec fn spec_decode(data: Seq<u8>) -> Result<Instruction, TokenError> {
    if data.len() == 0 {
        Err(TokenError::MalformedInstruction)
    } else if data[0] == 0 {
        Ok(Instruction::Initialize)
    } else if data[0] == 1 {
        if data.len() == 1 {
            Ok(Instruction::MintTo { amount: 1 })
        } else if data.len() < 9 {
            Err(TokenError::MalformedInstruction)
        } else {
            Ok(Instruction::MintTo { amount: spec_u64_from_le_bytes(data.subrange(1, 9)) })
        }
    } else if data[0] == 2 {
        Ok(Instruction::Transfer)
    } else {
        Err(TokenError::UnknownOpcode)
    }
}

/// Decodes a raw buffer into a typed instruction, or says precisely why
/// it cannot.
pub fn decode_instruction(data: &Vec<u8>) -> (r: Result<Instruction, TokenError>)
    ensures
        r == spec_decode(data@),
{
    if data.len() == 0 {
        return Err(TokenError::MalformedInstruction);
    }
    let opcode = data[0];
    if opcode == 0 {
        Ok(Instruction::Initialize)
    } else if opcode == 1 {
        if data.len() == 1 {
            Ok(Instruction::MintTo { amount: 1 })
        } else if data.len() < 9 {
            Err(TokenError::MalformedInstruction)
        } else {
            let operand = slice_subrange(data.as_slice(), 1, 9);
            let amount = u64_from_le_bytes(operand);
            Ok(Instruction::MintTo { amount })
        }
    } else if opcode == 2 {
        Ok(Instruction::Transfer)
    } else {
        Err(TokenError::UnknownOpcode)
    }
}

/// Builds the buffer that initializes a mint: the selector alone.
pub fn encode_initialize() -> (r: Vec<u8>)
    ensures
        spec_decode(r@) == Ok::<Instruction, TokenError>(Instruction::Initialize),
        r@.len() == 1,
{
    let mut buffer: Vec<u8> = Vec::new();
    buffer.push(0);
    buffer
}

/// Builds the buffer that mints `amount` units: the selector followed by
/// the amount as eight little-endian bytes.
pub fn encode_mint_to(amount: u64) -> (r: Vec<u8>)
    ensures
        spec_decode(r@) == Ok::<Instruction, TokenError>(Instruction::MintTo { amount }),
        r@.len() == 9,
        r@.subrange(1, 9) == spec_u64_to_le_bytes(amount),
{
    let mut buffer: Vec<u8> = Vec::new();
    buffer.push(1);
    let mut operand = u64_to_le_bytes(amount);
    buffer.append(&mut operand);
    proof {
        lemma_auto_spec_u64_to_from_le_bytes();
        assert(buffer@.subrange(1, 9) =~= spec_u64_to_le_bytes(amount));
        assert(buffer@[0] == 1u8);
    }
    buffer
}

/// Builds the buffer that attempts a transfer: the selector alone.
pub fn encode_transfer() -> (r: Vec<u8>)
    ensures
        spec_decode(r@) == Ok::<Instruction, TokenError>(Instruction::Transfer),
        r@.len() == 1,
{
    let mut buffer: Vec<u8> = Vec::new();
    buffer.push(2);
    buffer
}

/// Amount decode correctness: an amount encoded as eight little-endian
/// bytes decodes back to itself, for every `u64` — zero, one and the
/// largest value included.
pub proof fn lemma_amount_round_trip(amount: u64)
    ensures
        spec_u64_to_le_bytes(amount).len() == 8,
        spec_u64_from_le_bytes(spec_u64_to_le_bytes(amount)) == amount,
{
    lemma_auto_spec_u64_to_from_le_bytes();
}

/// A buffer bearing the amount-carrying selector but a truncated operand
/// is malformed: decoding refuses it rather than reading out of bounds.
pub proof fn lemma_truncated_amount_malformed(data: Seq<u8>)
    requires
        1 < data.len() < 9,
        data[0] == 1,
    ensures
        spec_decode(data) == Err::<Instruction, TokenError>(TokenError::MalformedInstruction),
{
}

/// An unknown selector fails the decode; it is never silently accepted.
pub proof fn lemma_unknown_selector_refused(data: Seq<u8>)
    requires
        data.len() >= 1,
        data[0] > 2,
    ensures
        spec_decode(data) == Err::<Instruction, TokenError>(TokenError::UnknownOpcode),
{
}

} // verus!

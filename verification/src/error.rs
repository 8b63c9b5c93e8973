//! The failure taxonomy of the instruction core.

use vstd::prelude::*;

verus! {

/// Every way an invocation can fail.  An invocation yields at most one
/// error, the first one encountered, and a failed invocation never leaves
/// a partial mutation behind.
#[derive(Clone, Copy, Debug, PartialEq, Eq, Structural)]
pub enum TokenError {
    /// The instruction buffer is too short for the shape its opcode demands.
    MalformedInstruction,
    /// The first byte of the instruction buffer selects no known operation.
    UnknownOpcode,
    /// The account list ended before every role of the operation was bound.
    MissingAccount,
    /// One identity was supplied for two mutually-exclusive writable roles.
    AliasedAccount,
    /// The targeted mint slot already holds an initialized mint.
    AlreadyInitialized,
    /// The presented signer is not the authority the operation demands,
    /// or the authority's account was presented without a signature.
    Unauthorized,
    /// Crediting the requested amount would wrap the destination balance.
    AmountOverflow,
    /// An account does not fit the mint role its position demands: the
    /// named record is absent, or it is linked to a different mint.
    MintMismatch,
    /// The transfer touches a frozen account or a non-transferable mint.
    TransferRestricted,
    /// The mint destination is frozen, and this call is not the one that
    /// froze it.
    AccountFrozen,
}

impl TokenError {
    /// The small integer a host surfaces to its caller, one per variant.
    pub open spec fn spec_code(self) -> u32 {
        match self {
            TokenError::MalformedInstruction => 1,
            TokenError::UnknownOpcode => 2,
            TokenError::MissingAccount => 3,
            TokenError::AliasedAccount => 4,
            TokenError::AlreadyInitialized => 5,
            TokenError::Unauthorized => 6,
            TokenError::AmountOverflow => 7,
            TokenError::MintMismatch => 8,
            TokenError::TransferRestricted => 9,
            TokenError::AccountFrozen => 10,
        }
    }

    /// Returns the caller-visible code of this error.
    pub fn code(&self) -> (c: u32)
        ensures
            c == self.spec_code(),
    {
        match self {
            TokenError::MalformedInstruction => 1,
            TokenError::UnknownOpcode => 2,
            TokenError::MissingAccount => 3,
            TokenError::AliasedAccount => 4,
            TokenError::AlreadyInitialized => 5,
            TokenError::Unauthorized => 6,
            TokenError::AmountOverflow => 7,
            TokenError::MintMismatch => 8,
            TokenError::TransferRestricted => 9,
            TokenError::AccountFrozen => 10,
        }
    }
}

/// The code mapping is one-to-one: distinct errors carry distinct codes.
pub proof fn lemma_error_codes_distinct(a: TokenError, b: TokenError)
    ensures
        a.spec_code() == b.spec_code() ==> a == b,
{
}

} // verus!

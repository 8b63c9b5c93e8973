//! A verified core for issuing ledger tokens under an authority model.
//!
//! The library is a small deterministic state machine: it decodes compact
//! binary instructions, binds an ordered list of caller-supplied account
//! references, checks the presented signers against the recorded
//! authorities, and mutates in-memory mint and token-account records
//! exactly once per instruction.  A mint may be created non-transferable;
//! units of such a mint freeze every account they land in, and no
//! instruction can move them afterwards.
//!
//! The host runtime is an external collaborator: it owns persistence,
//! signature checking, and the serialization of invocations.  It hands the
//! core plain values (an instruction buffer, account identities, signer
//! flags) and receives either success or a single typed error; a failed
//! invocation leaves the state exactly as it was.

pub mod codec;
pub mod cursor;
pub mod dispatch;
pub mod enforcer;
pub mod error;
pub mod guard;
pub mod identity;
pub mod ledger;
pub mod mint;
pub mod table;

pub use codec::Instruction;
pub use dispatch::process_instruction;
pub use error::TokenError;
pub use identity::AccountMeta;
pub use identity::Identity;
pub use ledger::AccountLedger;
pub use ledger::TokenAccount;
pub use mint::Mint;
pub use mint::MintRegistry;

//! Opaque participant identities and per-invocation account references.

use vstd::prelude::*;

verus! {

/// An opaque, comparable credential standing for one participant: a
/// signer, an account holder, a mint slot.  The host assigns each
/// participant a distinct handle and never asks this layer to interpret
/// it; the core only compares identities for equality.
#[derive(Clone, Copy, Debug, PartialEq, Eq, Structural)]
pub struct Identity {
    /// The host-chosen handle.  Distinct participants get distinct handles.
    pub key: u64,
}

impl Identity {
    /// Wraps a host-chosen handle.
    pub fn new(key: u64) -> (id: Identity)
        ensures
            id.key == key,
    {
        Identity { key }
    }
}

/// One entry of the ordered account list a caller supplies with an
/// invocation: which account, and whether the host attests that the
/// holder of the matching private key signed this invocation.  Possession
/// of the signature is asserted by the host before the core runs; the
/// core never sees key material.
#[derive(Clone, Copy, Debug, PartialEq, Eq, Structural)]
pub struct AccountMeta {
    /// The referenced account.
    pub id: Identity,
    /// True when the host verified a signature by `id` over this invocation.
    pub signer: bool,
}

impl AccountMeta {
    /// Builds an account reference.
    pub fn new(id: Identity, signer: bool) -> (m: AccountMeta)
        ensures
            m.id == id,
            m.signer == signer,
    {
        AccountMeta { id, signer }
    }
}

} // verus!

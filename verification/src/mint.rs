//! Mint records and the registry that owns them.

use vstd::prelude::*;

use crate::error::TokenError;
use crate::identity::Identity;
use crate::table::Table;

verus! {

/// The issuing record of one token class.  `decimals` and
/// `non_transferable` are fixed at creation: the registry exposes no way
/// to change an initialized mint.  The authorities are identities whose
/// signature the host must attest before a privileged operation; the core
/// never infers them.
#[derive(Clone, Copy, Debug)]
pub struct Mint {
    /// Zero for non-fungible issuance, positive for divisible tokens.
    /// Echoed exactly as the creator chose it, never rounded.
    pub decimals: u8,
    /// The only identity allowed to mint new units.
    pub mint_authority: Identity,
    /// The only identity allowed to freeze accounts; `None` disables
    /// freezing by authority.  It cannot thaw an account frozen by the
    /// non-transferable policy: no thaw path exists in this core.
    pub freeze_authority: Option<Identity>,
    /// When true, units of this mint freeze every account they land in,
    /// irreversibly.  Chosen at creation, for the life of the mint.
    pub non_transferable: bool,
}

/// Owns every mint record, keyed by the identity of its slot.
pub struct MintRegistry {
    /// The underlying keyed storage.
    pub table: Table<Mint>,
}

/// What initializing `id` with `mint` does to the registry map: a slot is
/// populated at most once, and a failed attempt changes nothing.
pub open spec fn spec_initialize(
    mints: Map<Identity, Mint>,
    id: Identity,
    mint: Mint,
) -> (Map<Identity, Mint>, Result<(), TokenError>) {
    if mints.contains_key(id) {
        (mints, Err(TokenError::AlreadyInitialized))
    } else {
        (mints.insert(id, mint), Ok(()))
    }
}

impl View for MintRegistry {
    type V = Map<Identity, Mint>;

    open spec fn view(&self) -> Map<Identity, Mint> {
        self.table@
    }
}

impl MintRegistry {
    /// The registry files each mint slot at most once.
    pub open spec fn wf(self) -> bool {
        self.table.wf()
    }

    /// A registry with no mints.
    pub fn new() -> (r: MintRegistry)
        ensures
            r@ == Map::<Identity, Mint>::empty(),
            r.wf(),
    {
        MintRegistry { table: Table::new() }
    }

    /// Looks up the mint filed under `id`.
    pub fn get_mint(&self, id: Identity) -> (r: Option<Mint>)
        requires
            self.wf(),
        ensures
            match r {
                Some(m) => self@.contains_key(id) && m == self@[id],
                None => !self@.contains_key(id),
            },
    {
        self.table.get(id)
    }

    /// Reports whether the slot `id` holds an initialized mint.
    pub fn contains_mint(&self, id: Identity) -> (b: bool)
        requires
            self.wf(),
        ensures
            b == self@.contains_key(id),
    {
        self.table.contains(id)
    }

    /// Populates the mint slot `id`, exactly once.  A slot that is
    /// already initialized is left untouched and the call fails with
    /// [`TokenError::AlreadyInitialized`].
    pub fn initialize_mint(
        &mut self,
        id: Identity,
        decimals: u8,
        mint_authority: Identity,
        freeze_authority: Option<Identity>,
        non_transferable: bool,
    ) -> (r: Result<(), TokenError>)
        requires
            old(self).wf(),
        ensures
            final(self).wf(),
            ({
                let mint = Mint { decimals, mint_authority, freeze_authority, non_transferable };
                let (mints, res) = spec_initialize(old(self)@, id, mint);
                final(self)@ == mints && r == res
            }),
    {
        if self.table.contains(id) {
            return Err(TokenError::AlreadyInitialized);
        }
        let mint = Mint { decimals, mint_authority, freeze_authority, non_transferable };
        self.table.upsert(id, mint);
        Ok(())
    }
}

/// Single initialization: once a slot is populated, a second attempt on
/// it fails with `AlreadyInitialized` and alters no field of any mint,
/// whatever parameters the second attempt carries.
pub proof fn lemma_single_initialization(
    mints: Map<Identity, Mint>,
    id: Identity,
    first: Mint,
    second: Mint,
)
    requires
        spec_initialize(mints, id, first).1 == Ok::<(), TokenError>(()),
    ensures
        ({
            let after_first = spec_initialize(mints, id, first).0;
            let (after_second, res) = spec_initialize(after_first, id, second);
            &&& res == Err::<(), TokenError>(TokenError::AlreadyInitialized)
            &&& after_second == after_first
            &&& after_second[id] == first
        }),
{
}

} // verus!

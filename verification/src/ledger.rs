//! The authority ledger binding: the external ledger keeps, per asset,
//! exactly one unit held by exactly one authority, and reassigns that
//! authority atomically. This model holds the per-asset authority map and
//! checks the two admissible signer proofs: an ordinary signature, or a
//! derived-address proof in which a node "signs" by reconstructing its own
//! seed tuple and stored salt.

use vstd::prelude::*;

use crate::assoc::{keys_unique, lemma_map_of_contains, lemma_map_of_index, lemma_map_of_push,
    lemma_map_of_update, map_of};
use crate::key::{lemma_key_view_injective, Key};
use crate::pda::{create_node_address, spec_derive_with_salt};

verus! {

/// What the ledger reports when a transfer is rejected.
#[derive(Clone, Copy, Debug, PartialEq, Eq, Structural)]
pub enum LedgerError {
    /// The proof does not match the asset's current authority holder.
    Unauthorized,
    /// The asset identity is unknown to the ledger.
    AssetNotFound,
}

/// The co-signer of an authority transfer: an ordinary signature by an
/// identity, or the reconstructed seed-tuple-plus-salt proof of a derived
/// node address.
#[derive(Clone, Copy, Debug)]
pub enum SignerProof {
    /// Signed directly by this identity.
    Signature(Key),
    /// "Signed" by the node whose address derives from this owner, this
    /// asset and this salt.
    Derived { user: Key, asset: Key, bump: u8 },
}

/// The identity a proof speaks for, if any: the signer itself, or the node
/// address the seed tuple reconstructs.
pub open spec fn proof_target(signer: SignerProof, program: Seq<u8>) -> Option<Seq<u8>> {
    match signer {
        SignerProof::Signature(k) => Some(k@),
        SignerProof::Derived { user, asset, bump } => spec_derive_with_salt(
            user@,
            asset@,
            bump,
            program,
        ),
    }
}

/// What one `set_authority` call does to the authority map, and what it
/// returns: nothing moves unless the asset is known and the proof speaks for
/// its current authority.
pub open spec fn set_authority_spec(
    ledger: Map<Key, Key>,
    mint: Key,
    new_authority: Key,
    signer: SignerProof,
    program: Seq<u8>,
) -> (Map<Key, Key>, Result<(), LedgerError>) {
    if !ledger.contains_key(mint) {
        (ledger, Err(LedgerError::AssetNotFound))
    } else if proof_target(signer, program) != Some(ledger[mint]@) {
        (ledger, Err(LedgerError::Unauthorized))
    } else {
        (ledger.insert(mint, new_authority), Ok(()))
    }
}

/// The per-asset authority record: which identity currently holds the one
/// unit of each asset.
pub struct TokenLedger {
    entries: Vec<(Key, Key)>,
}

impl View for TokenLedger {
    type V = Map<Key, Key>;

    closed spec fn view(&self) -> Map<Key, Key> {
        map_of(self.entries@)
    }
}

impl TokenLedger {
    /// Each asset is recorded once.
    pub closed spec fn wf(&self) -> bool {
        keys_unique(self.entries@)
    }

    /// An empty ledger: no assets at all.
    pub fn new() -> (r: TokenLedger)
        ensures
            r@ == Map::<Key, Key>::empty(),
            r.wf(),
    {
        let l = TokenLedger { entries: Vec::new() };
        proof {
            assert(l.entries@.len() == 0);
        }
        l
    }

    /// The position of an asset's record, if it has one.
    fn index_of(&self, mint: &Key) -> (r: Option<usize>)
        ensures
            match r {
                Some(i) => i < self.entries@.len() && self.entries@[i as int].0 == *mint,
                None => forall|j: int|
                    0 <= j < self.entries@.len() ==> (#[trigger] self.entries@[j]).0 != *mint,
            },
    {
        let mut i: usize = 0;
        while i < self.entries.len()
            invariant
                0 <= i <= self.entries@.len(),
                forall|j: int| 0 <= j < i ==> (#[trigger] self.entries@[j]).0 != *mint,
            decreases self.entries@.len() - i,
        {
            let hit = self.entries[i].0.equals(mint);
            proof {
                lemma_key_view_injective(self.entries@[i as int].0, *mint);
            }
            if hit {
                return Some(i);
            }
            i += 1;
        }
        None
    }

    /// Records a freshly issued asset with its first authority. Models the
    /// external ledger's issuance, which the tree protocol never performs
    /// itself.
    pub fn register_asset(&mut self, mint: &Key, owner: &Key)
        requires
            old(self).wf(),
            !old(self)@.contains_key(*mint),
        ensures
            final(self).wf(),
            final(self)@ == old(self)@.insert(*mint, *owner),
    {
        proof {
            lemma_map_of_contains(self.entries@, *mint);
            lemma_map_of_push(self.entries@, *mint, *owner);
        }
        self.entries.push((*mint, *owner));
    }

    /// The caller's balance in an asset: 1 exactly when the caller is its
    /// recorded authority, else 0. The sole-authority check of every
    /// operation.
    pub fn balance_of(&self, mint: &Key, owner: &Key) -> (r: u64)
        requires
            self.wf(),
        ensures
            r == (if self@.contains_key(*mint) && self@[*mint] == *owner {
                1u64
            } else {
                0u64
            }),
    {
        proof {
            lemma_map_of_contains(self.entries@, *mint);
        }
        match self.index_of(mint) {
            None => 0,
            Some(i) => {
                proof {
                    lemma_map_of_index(self.entries@, i as int);
                    lemma_key_view_injective(self.entries@[i as int].1, *owner);
                }
                if self.entries[i].1.equals(owner) {
                    1
                } else {
                    0
                }
            },
        }
    }

    /// Reassigns an asset's authority, exactly as `set_authority_spec` says:
    /// fails with `AssetNotFound` for an unknown asset, with `Unauthorized`
    /// for a proof that does not speak for the current authority, and moves
    /// the authority otherwise.
    pub fn set_authority(
        &mut self,
        mint: &Key,
        new_authority: &Key,
        signer: &SignerProof,
        program: &Key,
    ) -> (r: Result<(), LedgerError>)
        requires
            old(self).wf(),
        ensures
            final(self).wf(),
            ({
                let (l2, r2) = set_authority_spec(old(self)@, *mint, *new_authority, *signer, program@);
                final(self)@ == l2 && r == r2
            }),
    {
        proof {
            lemma_map_of_contains(self.entries@, *mint);
        }
        let i = match self.index_of(mint) {
            None => {
                return Err(LedgerError::AssetNotFound);
            },
            Some(i) => i,
        };
        proof {
            lemma_map_of_index(self.entries@, i as int);
        }
        let current = self.entries[i].1;
        let authorized = match signer {
            SignerProof::Signature(k) => k.equals(&current),
            SignerProof::Derived { user, asset, bump } => {
                match create_node_address(user, asset, *bump, program) {
                    Some(a) => a.equals(&current),
                    None => false,
                }
            },
        };
        if !authorized {
            return Err(LedgerError::Unauthorized);
        }
        proof {
            lemma_map_of_update(self.entries@, i as int, *new_authority);
        }
        let k = self.entries[i].0;
        self.entries[i] = (k, *new_authority);
        Ok(())
    }
}

} // verus!

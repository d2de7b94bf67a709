//! The address deriver: a deterministic, collision-resistant storage address
//! for a node, computed from a seed tuple (namespace tag, owner identity,
//! asset identity) plus a one-byte salt ("bump") chosen at creation so that
//! the derived address falls outside the space reachable by ordinary signing
//! keys.
//!
//! The derivation itself is the platform's: the two trusted wrappers below
//! call into the `solana-pubkey` crate, and everything else is proved against
//! the names given to their results.

use vstd::prelude::*;

use crate::key::Key;
use anchor_lang::solana_program::pubkey::Pubkey;

verus! {

/// What `Pubkey::try_find_program_address` returns for three seed slices and
/// a program id: the canonical derived address and its salt, or nothing in
/// the statistically improbable case that no salt works. A pure function of
/// its arguments.
pub uninterp spec fn found_pda(
    s1: Seq<u8>,
    s2: Seq<u8>,
    s3: Seq<u8>,
    program: Seq<u8>,
) -> Option<(Seq<u8>, u8)>;

/// What `Pubkey::create_program_address` returns for three seed slices plus a
/// one-byte salt seed and a program id: the derived address, or nothing where
/// the crate rejects the seeds or the result lands on the ed25519 curve (that
/// is, inside the signing-key space). A pure function of its arguments.
pub uninterp spec fn salted_pda(
    s1: Seq<u8>,
    s2: Seq<u8>,
    s3: Seq<u8>,
    salt: u8,
    program: Seq<u8>,
) -> Option<Seq<u8>>;

/// The canonical derivation is reproducible from its own salt: whatever
/// address and salt the search finds, deriving again with that very salt
/// yields that very address. Established by every call of the search.
pub open spec fn found_pda_salted(s1: Seq<u8>, s2: Seq<u8>, s3: Seq<u8>, program: Seq<u8>) -> bool {
    match found_pda(s1, s2, s3, program) {
        Some((addr, salt)) => salted_pda(s1, s2, s3, salt, program) == Some(addr),
        None => true,
    }
}

/// Relies on `Pubkey::try_find_program_address` (crate `solana-pubkey`): a
/// deterministic search, over the seeds and the program id alone, for a
/// derived address outside the signing-key space, returned together with the
/// salt byte that produces it; the address it finds reproduces under
/// `Pubkey::create_program_address` with that salt appended as a fourth seed.
#[verifier::external_body]
pub(crate) fn try_find_pda(s1: &[u8], s2: &[u8], s3: &[u8], program: &Key) -> (r: Option<
    (Key, u8),
>)
    ensures
        match (r, found_pda(s1@, s2@, s3@, program@)) {
            (Some((a, b)), Some((sa, sb))) => a@ == sa && b == sb && salted_pda(
                s1@,
                s2@,
                s3@,
                b,
                program@,
            ) == Some(sa),
            (None, None) => true,
            _ => false,
        },
{
    let program_id = Pubkey::new_from_array(program.bytes);
    Pubkey::try_find_program_address(&[s1, s2, s3], &program_id).map(
        |(a, b)| (Key { bytes: a.to_bytes() }, b),
    )
}

/// Relies on `Pubkey::create_program_address` (crate `solana-pubkey`): the
/// derived address for the three seeds plus one given salt byte, or `None`
/// where the crate rejects the seeds or the result lies on the ed25519 curve.
#[verifier::external_body]
pub(crate) fn create_pda(s1: &[u8], s2: &[u8], s3: &[u8], salt: u8, program: &Key) -> (r: Option<
    Key,
>)
    ensures
        match (r, salted_pda(s1@, s2@, s3@, salt, program@)) {
            (Some(a), Some(sa)) => a@ == sa,
            (None, None) => true,
            _ => false,
        },
{
    let program_id = Pubkey::new_from_array(program.bytes);
    match Pubkey::create_program_address(&[s1, s2, s3, &[salt]], &program_id) {
        Ok(a) => Some(Key { bytes: a.to_bytes() }),
        Err(_) => None,
    }
}

/// The namespace tag of every tree-node address: the bytes of
/// "node_pda_seed".
pub const NODE_PDA_SEED: [u8; 13] = [110, 111, 100, 101, 95, 112, 100, 97, 95, 115, 101, 101, 100];

/// The seed tag as a mathematical sequence.
pub open spec fn node_tag() -> Seq<u8> {
    NODE_PDA_SEED@
}

/// The canonical derivation of a tree node's address for one (owner, asset)
/// pair under one program id: the (address, salt) that the deriver finds.
pub open spec fn spec_derive(owner: Seq<u8>, asset: Seq<u8>, program: Seq<u8>) -> Option<
    (Seq<u8>, u8),
> {
    found_pda(node_tag(), owner, asset, program)
}

/// The node address reconstructed from an (owner, asset) pair and a stored
/// salt: the proof-of-authority form of the derivation.
pub open spec fn spec_derive_with_salt(
    owner: Seq<u8>,
    asset: Seq<u8>,
    salt: u8,
    program: Seq<u8>,
) -> Option<Seq<u8>> {
    salted_pda(node_tag(), owner, asset, salt, program)
}

/// The canonical salt for an (owner, asset) pair reproduces the canonical
/// address. Established by every call of `derive_node_address`.
pub open spec fn derive_links(owner: Seq<u8>, asset: Seq<u8>, program: Seq<u8>) -> bool {
    found_pda_salted(node_tag(), owner, asset, program)
}

/// How an executable derivation result relates to the mathematical one.
pub open spec fn derive_matches(
    r: Option<(Key, u8)>,
    owner: Seq<u8>,
    asset: Seq<u8>,
    program: Seq<u8>,
) -> bool {
    match (r, spec_derive(owner, asset, program)) {
        (Some((a, b)), Some((sa, sb))) => a@ == sa && b == sb,
        (None, None) => true,
        _ => false,
    }
}

/// Derives the canonical (address, salt) for one (owner, asset) pair: the
/// address every operation compares caller-supplied node addresses against.
pub fn derive_node_address(owner: &Key, asset: &Key, program: &Key) -> (r: Option<(Key, u8)>)
    ensures
        derive_matches(r, owner@, asset@, program@),
        derive_links(owner@, asset@, program@),
{
    try_find_pda(NODE_PDA_SEED.as_slice(), owner.bytes.as_slice(), asset.bytes.as_slice(), program)
}

/// Reconstructs a node address from an (owner, asset) pair and a stored
/// salt, as the delegated-signer proof does.
pub fn create_node_address(owner: &Key, asset: &Key, salt: u8, program: &Key) -> (r: Option<Key>)
    ensures
        match (r, spec_derive_with_salt(owner@, asset@, salt, program@)) {
            (Some(a), Some(sa)) => a@ == sa,
            (None, None) => true,
            _ => false,
        },
{
    create_pda(
        NODE_PDA_SEED.as_slice(),
        owner.bytes.as_slice(),
        asset.bytes.as_slice(),
        salt,
        program,
    )
}

/// Checks that a supplied address is exactly the one the deriver reconstructs
/// for this (owner, asset, salt) triple.
pub fn verify_node_address(address: &Key, owner: &Key, asset: &Key, salt: u8, program: &Key) -> (r:
    bool)
    ensures
        r == (spec_derive_with_salt(owner@, asset@, salt, program@) == Some(address@)),
{
    match create_node_address(owner, asset, salt, program) {
        Some(a) => a.equals(address),
        None => false,
    }
}

/// Deriving is deterministic: two results of the deriver for the same
/// (owner, asset, program) triple are the same result.
pub proof fn lemma_derive_stable(
    r1: Option<(Key, u8)>,
    r2: Option<(Key, u8)>,
    owner: Key,
    asset: Key,
    program: Key,
)
    requires
        derive_matches(r1, owner@, asset@, program@),
        derive_matches(r2, owner@, asset@, program@),
    ensures
        match (r1, r2) {
            (Some((a1, b1)), Some((a2, b2))) => a1 == a2 && b1 == b2,
            (None, None) => true,
            _ => false,
        },
{
    match (r1, r2) {
        (Some((a1, b1)), Some((a2, b2))) => {
            crate::key::lemma_key_view_injective(a1, a2);
        },
        _ => {},
    }
}

} // verus!

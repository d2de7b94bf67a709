//! The tree protocol: RootCreate (`new_tree_handler`), Attach
//! (`add_tree_node`) and Detach (`extract_tree_node`) against the node store
//! and the authority ledger.
//!
//! Every operation re-derives the caller-supplied addresses and rejects a
//! mismatch before any mutation; every operation is all-or-nothing: either
//! every effect (slot update, authority transfer, optional close) lands, or
//! none does. Attach allocates the first empty slot and rejects a full node
//! with `TreeFull` rather than trusting a caller-supplied index, and Detach
//! rejects a child missing from the parent's slots with `ChildNotFound`
//! rather than silently proceeding with the transfer.

use vstd::prelude::*;

use crate::key::{lemma_key_view_injective, Key};
use crate::ledger::{set_authority_spec, LedgerError, SignerProof, TokenLedger};
use crate::node::{all_empty, empty_children, first_empty, first_slot_of, make_empty_children,
    TreeNode, CHILDREN_LEN};
use crate::pda::{create_node_address, derive_node_address, spec_derive, spec_derive_with_salt};
use crate::store::NodeStore;

verus! {

broadcast use vstd::array::group_array_axioms;

/// Why an operation was rejected. Rejection leaves every record unchanged.
#[derive(Clone, Copy, Debug, PartialEq, Eq, Structural)]
pub enum TreeError {
    /// A supplied address fails the deriver's verification.
    AddressMismatch,
    /// The caller does not hold exactly one unit of the asset.
    NotSoleAuthority,
    /// Detach: the child asset is not in the parent's slots.
    ChildNotFound,
    /// Attach: every slot of the parent is occupied.
    TreeFull,
    /// No node record is allocated at a supplied address.
    NodeNotFound,
    /// The ledger rejected the transfer's signer proof.
    LedgerUnauthorized,
    /// The ledger does not know the asset.
    LedgerAssetNotFound,
    /// A node record is already allocated at the target address.
    StorageAllocationFailed,
}

/// What RootCreate does to the node store, and what it returns. The ledger is
/// only read: no authority moves, the asset stays with its owner.
pub open spec fn new_tree_spec(
    nodes: Map<Key, TreeNode>,
    ledger: Map<Key, Key>,
    program: Key,
    user: Key,
    mint: Key,
    node_address: Key,
    account_bump: u8,
) -> (Map<Key, TreeNode>, Result<(), TreeError>) {
    if spec_derive(user@, mint@, program@) != Some((node_address@, account_bump)) {
        (nodes, Err(TreeError::AddressMismatch))
    } else if nodes.contains_key(node_address) {
        (nodes, Err(TreeError::StorageAllocationFailed))
    } else if !(ledger.contains_key(mint) && ledger[mint] == user) {
        (nodes, Err(TreeError::NotSoleAuthority))
    } else {
        (
            nodes.insert(
                node_address,
                TreeNode { bump: account_bump, parent_mint: mint, children_mint: empty_children() },
            ),
            Ok(()),
        )
    }
}

/// What Attach does to the node store and the ledger, and what it returns:
/// the child asset lands in the parent's first empty slot, a fresh child node
/// is allocated, and authority over the child asset moves from the owner to
/// the parent node's address.
pub open spec fn add_tree_node_spec(
    nodes: Map<Key, TreeNode>,
    ledger: Map<Key, Key>,
    program: Key,
    user: Key,
    parent_address: Key,
    mint: Key,
    node_address: Key,
    account_bump: u8,
) -> (Map<Key, TreeNode>, Map<Key, Key>, Result<(), TreeError>) {
    if !nodes.contains_key(parent_address) {
        (nodes, ledger, Err(TreeError::NodeNotFound))
    } else {
        let parent = nodes[parent_address];
        if spec_derive_with_salt(user@, parent.parent_mint@, parent.bump, program@) != Some(
            parent_address@,
        ) {
            (nodes, ledger, Err(TreeError::AddressMismatch))
        } else if spec_derive(user@, mint@, program@) != Some((node_address@, account_bump)) {
            (nodes, ledger, Err(TreeError::AddressMismatch))
        } else if nodes.contains_key(node_address) {
            (nodes, ledger, Err(TreeError::StorageAllocationFailed))
        } else if !(ledger.contains_key(mint) && ledger[mint] == user) {
            (nodes, ledger, Err(TreeError::NotSoleAuthority))
        } else {
            match first_empty(parent.children_mint@) {
                None => (nodes, ledger, Err(TreeError::TreeFull)),
                Some(i) => {
                    let filled = TreeNode {
                        children_mint: vstd::array::spec_array_update(
                            parent.children_mint,
                            i,
                            Some(mint),
                        ),
                        ..parent
                    };
                    let child = TreeNode {
                        bump: account_bump,
                        parent_mint: mint,
                        children_mint: empty_children(),
                    };
                    (
                        nodes.insert(parent_address, filled).insert(node_address, child),
                        ledger.insert(mint, parent_address),
                        Ok(()),
                    )
                },
            }
        }
    }
}

/// What Detach does to the node store and the ledger, and what it returns:
/// the child asset's slot in the parent is cleared, the child node is closed
/// exactly when its own slots are all empty, and authority over the child
/// asset moves back to the owner, the parent node co-signing through its
/// reconstructed seed tuple and stored salt.
pub open spec fn extract_tree_node_spec(
    nodes: Map<Key, TreeNode>,
    ledger: Map<Key, Key>,
    program: Key,
    user: Key,
    parent_address: Key,
    node_address: Key,
    mint: Key,
) -> (Map<Key, TreeNode>, Map<Key, Key>, Result<(), TreeError>) {
    if !nodes.contains_key(parent_address) {
        (nodes, ledger, Err(TreeError::NodeNotFound))
    } else {
        let parent = nodes[parent_address];
        if spec_derive_with_salt(user@, parent.parent_mint@, parent.bump, program@) != Some(
            parent_address@,
        ) {
            (nodes, ledger, Err(TreeError::AddressMismatch))
        } else if !nodes.contains_key(node_address) {
            (nodes, ledger, Err(TreeError::NodeNotFound))
        } else if match spec_derive(user@, mint@, program@) {
            Some((a, b)) => a != node_address@,
            None => true,
        } {
            (nodes, ledger, Err(TreeError::AddressMismatch))
        } else {
            match first_slot_of(parent.children_mint@, mint) {
                None => (nodes, ledger, Err(TreeError::ChildNotFound)),
                Some(i) => {
                    let (ledger2, transfer) = set_authority_spec(
                        ledger,
                        mint,
                        user,
                        SignerProof::Derived { user, asset: parent.parent_mint, bump: parent.bump },
                        program@,
                    );
                    match transfer {
                        Err(LedgerError::AssetNotFound) => (
                            nodes,
                            ledger,
                            Err(TreeError::LedgerAssetNotFound),
                        ),
                        Err(LedgerError::Unauthorized) => (
                            nodes,
                            ledger,
                            Err(TreeError::LedgerUnauthorized),
                        ),
                        Ok(()) => {
                            let cleared = TreeNode {
                                children_mint: vstd::array::spec_array_update(
                                    parent.children_mint,
                                    i,
                                    None,
                                ),
                                ..parent
                            };
                            let nodes1 = nodes.insert(parent_address, cleared);
                            let child = nodes1[node_address];
                            let nodes2 = if all_empty(child.children_mint@) {
                                nodes1.remove(node_address)
                            } else {
                                nodes1
                            };
                            (nodes2, ledger2, Ok(()))
                        },
                    }
                },
            }
        }
    }
}

/// RootCreate: allocates a node for an asset whose sole authority the caller
/// proves, at the address the deriver computes for (owner, asset). The salt
/// is recorded; the slots start empty; no authority moves.
pub fn new_tree_handler(
    store: &mut NodeStore,
    ledger: &TokenLedger,
    program: &Key,
    user: &Key,
    mint: &Key,
    node_address: &Key,
    account_bump: u8,
) -> (r: Result<(), TreeError>)
    requires
        old(store).wf(),
        ledger.wf(),
    ensures
        final(store).wf(),
        ({
            let (n2, r2) = new_tree_spec(
                old(store)@,
                ledger@,
                *program,
                *user,
                *mint,
                *node_address,
                account_bump,
            );
            final(store)@ == n2 && r == r2
        }),
{
    let derived = derive_node_address(user, mint, program);
    let derived_ok = match &derived {
        Some((a, b)) => a.equals(node_address) && *b == account_bump,
        None => false,
    };
    if !derived_ok {
        return Err(TreeError::AddressMismatch);
    }
    if store.contains(node_address) {
        return Err(TreeError::StorageAllocationFailed);
    }
    proof {
        if ledger@.contains_key(*mint) {
            lemma_key_view_injective(ledger@[*mint], *user);
        }
    }
    if ledger.balance_of(mint, user) != 1 {
        return Err(TreeError::NotSoleAuthority);
    }
    store.insert_new(
        *node_address,
        TreeNode { bump: account_bump, parent_mint: *mint, children_mint: make_empty_children() },
    );
    Ok(())
}

/// Attach: writes the child asset into the parent's first empty slot,
/// allocates the fresh child node at its derived address, and transfers
/// authority over the child asset to the parent node's address with the
/// owner signing.
pub fn add_tree_node(
    store: &mut NodeStore,
    ledger: &mut TokenLedger,
    program: &Key,
    user: &Key,
    parent_address: &Key,
    mint: &Key,
    node_address: &Key,
    account_bump: u8,
) -> (r: Result<(), TreeError>)
    requires
        old(store).wf(),
        old(ledger).wf(),
    ensures
        final(store).wf(),
        final(ledger).wf(),
        ({
            let (n2, l2, r2) = add_tree_node_spec(
                old(store)@,
                old(ledger)@,
                *program,
                *user,
                *parent_address,
                *mint,
                *node_address,
                account_bump,
            );
            final(store)@ == n2 && final(ledger)@ == l2 && r == r2
        }),
{
    let parent = match store.get(parent_address) {
        None => {
            return Err(TreeError::NodeNotFound);
        },
        Some(p) => p,
    };
    let reconstructed = create_node_address(user, &parent.parent_mint, parent.bump, program);
    let parent_ok = match &reconstructed {
        Some(a) => a.equals(parent_address),
        None => false,
    };
    if !parent_ok {
        return Err(TreeError::AddressMismatch);
    }
    let derived = derive_node_address(user, mint, program);
    let derived_ok = match &derived {
        Some((a, b)) => a.equals(node_address) && *b == account_bump,
        None => false,
    };
    if !derived_ok {
        return Err(TreeError::AddressMismatch);
    }
    if store.contains(node_address) {
        return Err(TreeError::StorageAllocationFailed);
    }
    proof {
        if ledger@.contains_key(*mint) {
            lemma_key_view_injective(ledger@[*mint], *user);
        }
    }
    if ledger.balance_of(mint, user) != 1 {
        return Err(TreeError::NotSoleAuthority);
    }
    let slot = match parent.first_empty_slot() {
        None => {
            return Err(TreeError::TreeFull);
        },
        Some(i) => i,
    };
    proof {
        crate::node::lemma_first_empty_from_facts(parent.children_mint@, 0);
    }
    let mut filled = parent;
    filled.children_mint[slot] = Some(*mint);
    proof {
        assert(filled.children_mint =~= vstd::array::spec_array_update(
            parent.children_mint,
            slot as int,
            Some(*mint),
        ));
    }
    store.put(parent_address, filled);
    store.insert_new(
        *node_address,
        TreeNode { bump: account_bump, parent_mint: *mint, children_mint: make_empty_children() },
    );
    let transfer = ledger.set_authority(
        mint,
        parent_address,
        &SignerProof::Signature(*user),
        program,
    );
    match transfer {
        Ok(()) => Ok(()),
        Err(_) => {
            proof {
                assert(false);
            }
            Err(TreeError::LedgerUnauthorized)
        },
    }
}

/// Detach: clears the child asset's slot in the parent, closes the child
/// node when its own slots are all empty (returning its storage deposit to
/// the owner), and transfers authority over the child asset back to the
/// owner, with the parent node co-signing through its reconstructed seed
/// tuple and stored salt.
pub fn extract_tree_node(
    store: &mut NodeStore,
    ledger: &mut TokenLedger,
    program: &Key,
    user: &Key,
    parent_address: &Key,
    node_address: &Key,
    mint: &Key,
) -> (r: Result<(), TreeError>)
    requires
        old(store).wf(),
        old(ledger).wf(),
    ensures
        final(store).wf(),
        final(ledger).wf(),
        ({
            let (n2, l2, r2) = extract_tree_node_spec(
                old(store)@,
                old(ledger)@,
                *program,
                *user,
                *parent_address,
                *node_address,
                *mint,
            );
            final(store)@ == n2 && final(ledger)@ == l2 && r == r2
        }),
{
    let parent = match store.get(parent_address) {
        None => {
            return Err(TreeError::NodeNotFound);
        },
        Some(p) => p,
    };
    let reconstructed = create_node_address(user, &parent.parent_mint, parent.bump, program);
    let parent_ok = match &reconstructed {
        Some(a) => a.equals(parent_address),
        None => false,
    };
    if !parent_ok {
        return Err(TreeError::AddressMismatch);
    }
    if !store.contains(node_address) {
        return Err(TreeError::NodeNotFound);
    }
    let derived = derive_node_address(user, mint, program);
    let derived_ok = match &derived {
        Some((a, _b)) => a.equals(node_address),
        None => false,
    };
    if !derived_ok {
        return Err(TreeError::AddressMismatch);
    }
    let slot = match parent.find_child(mint) {
        None => {
            return Err(TreeError::ChildNotFound);
        },
        Some(i) => i,
    };
    proof {
        crate::node::lemma_first_slot_of_from_facts(parent.children_mint@, *mint, 0);
    }
    let transfer = ledger.set_authority(
        mint,
        user,
        &SignerProof::Derived { user: *user, asset: parent.parent_mint, bump: parent.bump },
        program,
    );
    match transfer {
        Err(LedgerError::AssetNotFound) => {
            return Err(TreeError::LedgerAssetNotFound);
        },
        Err(LedgerError::Unauthorized) => {
            return Err(TreeError::LedgerUnauthorized);
        },
        Ok(()) => {},
    }
    let mut cleared = parent;
    cleared.children_mint[slot] = None;
    proof {
        assert(cleared.children_mint =~= vstd::array::spec_array_update(
            parent.children_mint,
            slot as int,
            None,
        ));
    }
    store.put(parent_address, cleared);
    let child = match store.get(node_address) {
        Some(n) => n,
        None => {
            proof {
                assert(false);
            }
            cleared
        },
    };
    if !child.has_children() {
        store.remove_entry(node_address);
    }
    Ok(())
}

} // verus!

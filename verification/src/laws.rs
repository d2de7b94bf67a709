//! The protocol's governing invariant and its laws: authority over an asset
//! and the shape of the node store stay consistent under RootCreate, Attach
//! and Detach, and the attach/detach pair round-trips.

use vstd::prelude::*;

use crate::build_tree::{add_tree_node_spec, extract_tree_node_spec, new_tree_spec, TreeError};
use crate::key::Key;
use crate::ledger::{proof_target, SignerProof};
use crate::node::{all_empty, first_empty, first_slot_of, lemma_first_empty_from_facts,
    lemma_first_slot_of_from_facts, TreeNode, CHILDREN_LEN};
use crate::pda::{derive_links, spec_derive_with_salt};

verus! {

broadcast use vstd::array::group_array_axioms;

/// Slot `i` of the node at `p` holds the asset `c`.
pub open spec fn slot_has_child(nodes: Map<Key, TreeNode>, p: Key, i: int, c: Key) -> bool {
    nodes.contains_key(p) && 0 <= i < CHILDREN_LEN && nodes[p].children_mint@[i] == Some(c)
}

/// The protocol's governing invariant: an asset sits in a parent's slot
/// exactly with authority over it held by that parent's address, and no
/// asset is attached twice at the same parent.
pub open spec fn consistent(nodes: Map<Key, TreeNode>, ledger: Map<Key, Key>) -> bool {
    &&& forall|p: Key, i: int, c: Key|
        #[trigger] slot_has_child(nodes, p, i, c) ==> ledger.contains_key(c) && ledger[c] == p
    &&& forall|p: Key, i: int, j: int, c: Key|
        slot_has_child(nodes, p, i, c) && slot_has_child(nodes, p, j, c) ==> i == j
}

/// RootCreate preserves the invariant: the new node starts with empty slots
/// and no authority moves.
pub proof fn lemma_new_tree_preserves_consistent(
    nodes: Map<Key, TreeNode>,
    ledger: Map<Key, Key>,
    program: Key,
    user: Key,
    mint: Key,
    node_address: Key,
    account_bump: u8,
)
    requires
        consistent(nodes, ledger),
    ensures
        consistent(new_tree_spec(nodes, ledger, program, user, mint, node_address, account_bump).0, ledger),
{
    let (n2, r) = new_tree_spec(nodes, ledger, program, user, mint, node_address, account_bump);
    if r is Ok {
        assert forall|p: Key, i: int, c: Key| #[trigger] slot_has_child(n2, p, i, c) implies ledger.contains_key(c)
            && ledger[c] == p by {
            if p == node_address {
                assert(n2[p].children_mint@[i] is None);
            } else {
                assert(slot_has_child(nodes, p, i, c));
            }
        }
        assert forall|p: Key, i: int, j: int, c: Key|
            slot_has_child(n2, p, i, c) && slot_has_child(n2, p, j, c) implies i == j by {
            if p == node_address {
                assert(n2[p].children_mint@[i] is None);
            } else {
                assert(slot_has_child(nodes, p, i, c));
                assert(slot_has_child(nodes, p, j, c));
            }
        }
    }
}

/// Under the invariant, an asset whose sole authority an ordinary owner
/// still holds sits in no node's slot. "Ordinary" means the owner is not
/// itself a stored node address: a derived address lies outside the
/// signing-key space, so no signer's key is ever a stored address.
pub proof fn lemma_owned_asset_unattached(
    nodes: Map<Key, TreeNode>,
    ledger: Map<Key, Key>,
    user: Key,
    mint: Key,
)
    requires
        consistent(nodes, ledger),
        !nodes.contains_key(user),
        ledger.contains_key(mint) && ledger[mint] == user,
    ensures
        forall|q: Key, j: int, c: Key| #[trigger] slot_has_child(nodes, q, j, c) ==> c != mint,
{
    assert forall|q: Key, j: int, c: Key| #[trigger] slot_has_child(nodes, q, j, c) implies c
        != mint by {
        if c == mint {
            assert(ledger[mint] == q);
            assert(nodes.contains_key(q));
        }
    }
}

/// Attach preserves the invariant, for any caller who is not itself a stored
/// node address.
pub proof fn lemma_add_tree_node_preserves_consistent(
    nodes: Map<Key, TreeNode>,
    ledger: Map<Key, Key>,
    program: Key,
    user: Key,
    parent_address: Key,
    mint: Key,
    node_address: Key,
    account_bump: u8,
)
    requires
        consistent(nodes, ledger),
        !nodes.contains_key(user),
    ensures
        ({
            let (n2, l2, r) = add_tree_node_spec(
                nodes,
                ledger,
                program,
                user,
                parent_address,
                mint,
                node_address,
                account_bump,
            );
            consistent(n2, l2)
        }),
{
    let (n2, l2, r) = add_tree_node_spec(
        nodes,
        ledger,
        program,
        user,
        parent_address,
        mint,
        node_address,
        account_bump,
    );
    if r is Ok {
        let parent = nodes[parent_address];
        let slot = first_empty(parent.children_mint@)->Some_0;
        lemma_first_empty_from_facts(parent.children_mint@, 0);
        lemma_owned_asset_unattached(nodes, ledger, user, mint);
        assert(parent_address != node_address);
        assert forall|p: Key, i: int, c: Key| #[trigger] slot_has_child(n2, p, i, c) implies l2.contains_key(c)
            && l2[c] == p by {
            if p == node_address {
                assert(n2[p].children_mint@[i] is None);
            } else if p == parent_address {
                assert(n2[p].children_mint@ == parent.children_mint@.update(slot, Some(mint)));
                if i == slot {
                    assert(c == mint);
                } else {
                    assert(slot_has_child(nodes, p, i, c));
                    assert(c != mint);
                }
            } else {
                assert(slot_has_child(nodes, p, i, c));
                assert(c != mint);
            }
        }
        assert forall|p: Key, i: int, j: int, c: Key|
            slot_has_child(n2, p, i, c) && slot_has_child(n2, p, j, c) implies i == j by {
            if p == node_address {
                assert(n2[p].children_mint@[i] is None);
            } else if p == parent_address {
                assert(n2[p].children_mint@ == parent.children_mint@.update(slot, Some(mint)));
                if i != j {
                    if i == slot {
                        assert(slot_has_child(nodes, p, j, mint));
                        assert(false);
                    } else if j == slot {
                        assert(slot_has_child(nodes, p, i, mint));
                        assert(false);
                    } else {
                        assert(slot_has_child(nodes, p, i, c));
                        assert(slot_has_child(nodes, p, j, c));
                    }
                }
            } else {
                assert(slot_has_child(nodes, p, i, c));
                assert(slot_has_child(nodes, p, j, c));
            }
        }
    }
}

/// Detach preserves the invariant.
pub proof fn lemma_extract_tree_node_preserves_consistent(
    nodes: Map<Key, TreeNode>,
    ledger: Map<Key, Key>,
    program: Key,
    user: Key,
    parent_address: Key,
    node_address: Key,
    mint: Key,
)
    requires
        consistent(nodes, ledger),
    ensures
        ({
            let (n2, l2, r) = extract_tree_node_spec(
                nodes,
                ledger,
                program,
                user,
                parent_address,
                node_address,
                mint,
            );
            consistent(n2, l2)
        }),
{
    let (n2, l2, r) = extract_tree_node_spec(
        nodes,
        ledger,
        program,
        user,
        parent_address,
        node_address,
        mint,
    );
    if r is Ok {
        let parent = nodes[parent_address];
        let slot = first_slot_of(parent.children_mint@, mint)->Some_0;
        lemma_first_slot_of_from_facts(parent.children_mint@, mint, 0);
        assert(slot_has_child(nodes, parent_address, slot, mint));
        // The ledger accepted the parent's derived-address proof, and that
        // proof reconstructs exactly the parent's address: the authority
        // holder is the parent.
        assert(ledger.contains_key(mint));
        assert(Some(ledger[mint]@) == spec_derive_with_salt(
            user@,
            parent.parent_mint@,
            parent.bump,
            program@,
        ));
        crate::key::lemma_key_view_injective(ledger[mint], parent_address);
        assert(ledger[mint] == parent_address);
        // Only this parent, and only this slot, holds the asset.
        assert forall|q: Key, j: int| #[trigger] slot_has_child(nodes, q, j, mint) implies q
            == parent_address && j == slot by {
            assert(ledger[mint] == q);
            assert(ledger[mint] == parent_address);
        }
        let cleared = TreeNode {
            children_mint: vstd::array::spec_array_update(parent.children_mint, slot, None),
            ..parent
        };
        let nodes1 = nodes.insert(parent_address, cleared);
        assert forall|p: Key, i: int, c: Key| #[trigger] slot_has_child(n2, p, i, c) implies l2.contains_key(c)
            && l2[c] == p by {
            assert(n2.contains_key(p) ==> nodes1.contains_key(p) && n2[p] == nodes1[p]);
            if p == parent_address {
                assert(cleared.children_mint@ == parent.children_mint@.update(slot, None));
                assert(i != slot);
                assert(slot_has_child(nodes, p, i, c));
                assert(c != mint);
            } else {
                assert(slot_has_child(nodes, p, i, c));
                assert(c != mint);
            }
        }
        assert forall|p: Key, i: int, j: int, c: Key|
            slot_has_child(n2, p, i, c) && slot_has_child(n2, p, j, c) implies i == j by {
            assert(n2.contains_key(p) ==> nodes1.contains_key(p) && n2[p] == nodes1[p]);
            if p == parent_address {
                assert(cleared.children_mint@ == parent.children_mint@.update(slot, None));
                assert(slot_has_child(nodes, p, i, c));
                assert(slot_has_child(nodes, p, j, c));
            } else {
                assert(slot_has_child(nodes, p, i, c));
                assert(slot_has_child(nodes, p, j, c));
            }
        }
    }
}

/// RootCreate followed immediately by Detach fails and moves nothing: a
/// fresh root has no attached children. Where the fresh root itself is
/// supplied as the child node — the only node record that exists — the
/// rejection is precisely `ChildNotFound`: a child missing from the parent's
/// slots is rejected outright, never skipped while the transfer proceeds.
pub proof fn lemma_detach_right_after_root_create_fails(
    nodes: Map<Key, TreeNode>,
    ledger: Map<Key, Key>,
    program: Key,
    user: Key,
    mint: Key,
    root_address: Key,
    account_bump: u8,
    child_node_address: Key,
    child_mint: Key,
)
    requires
        derive_links(user@, mint@, program@),
    ensures
        ({
            let (n1, r1) = new_tree_spec(nodes, ledger, program, user, mint, root_address, account_bump);
            r1 is Ok ==> {
                let (n2, l2, r2) = extract_tree_node_spec(
                    n1,
                    ledger,
                    program,
                    user,
                    root_address,
                    child_node_address,
                    child_mint,
                );
                &&& r2 is Err
                &&& n2 == n1
                &&& l2 == ledger
                &&& (child_node_address == root_address && child_mint == mint ==> r2 == Err::<
                    (),
                    TreeError,
                >(TreeError::ChildNotFound))
            }
        }),
{
    let (n1, r1) = new_tree_spec(nodes, ledger, program, user, mint, root_address, account_bump);
    if r1 is Ok {
        let root = n1[root_address];
        assert(all_empty(root.children_mint@));
        let (n2, l2, r2) = extract_tree_node_spec(
            n1,
            ledger,
            program,
            user,
            root_address,
            child_node_address,
            child_mint,
        );
        lemma_first_slot_of_from_facts(root.children_mint@, child_mint, 0);
        if first_slot_of(root.children_mint@, child_mint) is Some {
            let k = first_slot_of(root.children_mint@, child_mint)->Some_0;
            assert(root.children_mint@[k] is None);
            assert(false);
        }
        assert(r2 is Err);
    }
}

/// Attach then Detach of the same (parent, child) pair is a complete round
/// trip: authority over the child asset returns to the owner, the fresh
/// child node (still empty) is closed again, and the node store ends exactly
/// where it began — in particular the parent's slot is empty again.
pub proof fn lemma_attach_then_detach_round_trip(
    nodes: Map<Key, TreeNode>,
    ledger: Map<Key, Key>,
    program: Key,
    user: Key,
    parent_address: Key,
    mint: Key,
    node_address: Key,
    account_bump: u8,
)
    requires
        consistent(nodes, ledger),
        !nodes.contains_key(user),
    ensures
        ({
            let (n1, l1, r1) = add_tree_node_spec(
                nodes,
                ledger,
                program,
                user,
                parent_address,
                mint,
                node_address,
                account_bump,
            );
            r1 is Ok ==> {
                let (n2, l2, r2) = extract_tree_node_spec(
                    n1,
                    l1,
                    program,
                    user,
                    parent_address,
                    node_address,
                    mint,
                );
                &&& r2 is Ok
                &&& l2 == ledger.insert(mint, user)
                &&& l2[mint] == user
                &&& n2 == nodes
            }
        }),
{
    let (n1, l1, r1) = add_tree_node_spec(
        nodes,
        ledger,
        program,
        user,
        parent_address,
        mint,
        node_address,
        account_bump,
    );
    if r1 is Ok {
        let parent = nodes[parent_address];
        let slot = first_empty(parent.children_mint@)->Some_0;
        lemma_first_empty_from_facts(parent.children_mint@, 0);
        lemma_owned_asset_unattached(nodes, ledger, user, mint);
        assert(parent_address != node_address);
        let filled = n1[parent_address];
        assert(filled.children_mint@ == parent.children_mint@.update(slot, Some(mint)));

        // The parent's slots before `slot` are occupied by other assets, so
        // the detach scan finds exactly the slot the attach filled.
        assert forall|j: int| 0 <= j < slot implies filled.children_mint@[j] != Some(mint) by {
            assert(filled.children_mint@[j] == parent.children_mint@[j]);
            assert(parent.children_mint@[j] is Some);
            let c = parent.children_mint@[j]->Some_0;
            assert(slot_has_child(nodes, parent_address, j, c));
        }
        lemma_first_slot_of_from_facts(filled.children_mint@, mint, 0);
        match first_slot_of(filled.children_mint@, mint) {
            None => {
                assert(filled.children_mint@[slot] == Some(mint));
                assert(false);
            },
            Some(k) => {
                if k < slot {
                    assert(filled.children_mint@[k] != Some(mint));
                    assert(false);
                } else if k > slot {
                    assert(filled.children_mint@[slot] != Some(mint));
                    assert(false);
                }
            },
        }
        assert(first_slot_of(filled.children_mint@, mint) == Some(slot));

        // The ledger accepts the parent's derived-address proof: attach put
        // the authority at exactly the address that proof reconstructs.
        let (n2, l2, r2) = extract_tree_node_spec(
            n1,
            l1,
            program,
            user,
            parent_address,
            node_address,
            mint,
        );
        assert(l1[mint] == parent_address);
        assert(proof_target(
            SignerProof::Derived { user, asset: filled.parent_mint, bump: filled.bump },
            program@,
        ) == Some(parent_address@));
        assert(r2 is Ok);

        // Clearing the slot restores the parent record exactly.
        let cleared = TreeNode {
            children_mint: vstd::array::spec_array_update(filled.children_mint, slot, None),
            ..filled
        };
        assert(cleared.children_mint =~= parent.children_mint) by {
            assert(cleared.children_mint@ =~= parent.children_mint@);
        }
        assert(cleared == parent);

        // The fresh child node is still empty, so it is closed again.
        let child = n1.insert(parent_address, cleared)[node_address];
        assert(child == n1[node_address]);
        assert(all_empty(child.children_mint@));
        assert(n2 == n1.insert(parent_address, cleared).remove(node_address));
        assert(n2 =~= nodes);
        assert(l2 =~= ledger.insert(mint, user));
    }
}

/// Detach closes the child node exactly when the child's own slots are all
/// empty; a child with an occupied slot stays allocated, byte for byte as it
/// was, while authority over the detached asset still returns to the owner.
pub proof fn lemma_detach_close_policy(
    nodes: Map<Key, TreeNode>,
    ledger: Map<Key, Key>,
    program: Key,
    user: Key,
    parent_address: Key,
    node_address: Key,
    mint: Key,
)
    requires
        node_address != parent_address,
    ensures
        ({
            let (n2, l2, r) = extract_tree_node_spec(
                nodes,
                ledger,
                program,
                user,
                parent_address,
                node_address,
                mint,
            );
            r is Ok ==> {
                &&& n2.contains_key(node_address) <==> !all_empty(
                    nodes[node_address].children_mint@,
                )
                &&& n2.contains_key(node_address) ==> n2[node_address] == nodes[node_address]
                &&& l2.contains_key(mint) && l2[mint] == user
            }
        }),
{
}

/// The end-to-end scenario: an owner creates a root for asset A, attaches
/// asset B — authority over B moves to the root's address and B lands in
/// slot 0 — then detaches B: authority over B returns to the owner, slot 0
/// is empty again, and B's node, having no children of its own, is closed.
pub proof fn lemma_end_to_end_scenario(
    nodes: Map<Key, TreeNode>,
    ledger: Map<Key, Key>,
    program: Key,
    owner: Key,
    asset_a: Key,
    asset_b: Key,
    root_address: Key,
    root_bump: u8,
    node_b_address: Key,
    b_bump: u8,
)
    requires
        consistent(nodes, ledger),
        !nodes.contains_key(owner),
        owner != root_address,
    ensures
        ({
            let (n1, r1) = new_tree_spec(nodes, ledger, program, owner, asset_a, root_address, root_bump);
            r1 is Ok ==> {
                let (n2, l2, r2) = add_tree_node_spec(
                    n1,
                    ledger,
                    program,
                    owner,
                    root_address,
                    asset_b,
                    node_b_address,
                    b_bump,
                );
                r2 is Ok ==> {
                    &&& l2.contains_key(asset_b) && l2[asset_b] == root_address
                    &&& n2.contains_key(root_address) && n2[root_address].children_mint@[0]
                        == Some(asset_b)
                    &&& ({
                        let (n3, l3, r3) = extract_tree_node_spec(
                            n2,
                            l2,
                            program,
                            owner,
                            root_address,
                            node_b_address,
                            asset_b,
                        );
                        &&& r3 is Ok
                        &&& l3.contains_key(asset_b) && l3[asset_b] == owner
                        &&& n3 == n1
                        &&& n3[root_address].children_mint@[0] is None
                        &&& !n3.contains_key(node_b_address)
                    })
                }
            }
        }),
{
    let (n1, r1) = new_tree_spec(nodes, ledger, program, owner, asset_a, root_address, root_bump);
    if r1 is Ok {
        lemma_new_tree_preserves_consistent(
            nodes,
            ledger,
            program,
            owner,
            asset_a,
            root_address,
            root_bump,
        );
        let (n2, l2, r2) = add_tree_node_spec(
            n1,
            ledger,
            program,
            owner,
            root_address,
            asset_b,
            node_b_address,
            b_bump,
        );
        if r2 is Ok {
            let root = n1[root_address];
            assert(root.children_mint@[0] is None);
            assert(first_empty(root.children_mint@) == Some(0int));
            lemma_attach_then_detach_round_trip(
                n1,
                ledger,
                program,
                owner,
                root_address,
                asset_b,
                node_b_address,
                b_bump,
            );
        }
    }
}

} // verus!

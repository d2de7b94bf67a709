use todo_tree::build_tree::{add_tree_node, extract_tree_node, new_tree_handler, TreeError};
use todo_tree::key::Key;
use todo_tree::ledger::{LedgerError, SignerProof, TokenLedger};
use todo_tree::node::{TreeNode, CHILDREN_LEN};
use todo_tree::pda::derive_node_address;
use todo_tree::store::NodeStore;

fn k(n: u8) -> Key {
    Key::new([n; 32])
}

const PROGRAM: u8 = 9;
const USER: u8 = 1;

/// A store, a ledger holding the given assets for the user, the program id
/// and the user key.
fn setup(assets: &[u8]) -> (NodeStore, TokenLedger, Key, Key) {
    let store = NodeStore::new();
    let mut ledger = TokenLedger::new();
    let user = k(USER);
    for &a in assets {
        ledger.register_asset(&k(a), &user);
    }
    (store, ledger, k(PROGRAM), user)
}

fn derived(owner: &Key, asset: &Key, program: &Key) -> (Key, u8) {
    derive_node_address(owner, asset, program).unwrap()
}

#[test]
fn root_create_succeeds_and_moves_no_authority() {
    let (mut store, ledger, program, user) = setup(&[2]);
    let mint = k(2);
    let (root, bump) = derived(&user, &mint, &program);
    assert_eq!(new_tree_handler(&mut store, &ledger, &program, &user, &mint, &root, bump), Ok(()));
    let node = store.get(&root).unwrap();
    assert_eq!(node.bump, bump);
    assert_eq!(node.parent_mint.bytes, mint.bytes);
    for slot in node.children_mint.iter() {
        assert!(slot.is_none());
    }
    // The asset stays with its owner.
    assert_eq!(ledger.balance_of(&mint, &user), 1);
}

#[test]
fn root_create_rejects_a_forged_address() {
    let (mut store, ledger, program, user) = setup(&[2]);
    let mint = k(2);
    let (_, bump) = derived(&user, &mint, &program);
    assert_eq!(
        new_tree_handler(&mut store, &ledger, &program, &user, &mint, &k(42), bump),
        Err(TreeError::AddressMismatch)
    );
    assert!(store.get(&k(42)).is_none());
}

#[test]
fn root_create_rejects_a_wrong_salt() {
    let (mut store, ledger, program, user) = setup(&[2]);
    let mint = k(2);
    let (root, bump) = derived(&user, &mint, &program);
    assert_eq!(
        new_tree_handler(&mut store, &ledger, &program, &user, &mint, &root, bump.wrapping_sub(1)),
        Err(TreeError::AddressMismatch)
    );
}

#[test]
fn root_create_demands_sole_authority() {
    // The asset belongs to someone else.
    let (mut store, mut ledger, program, user) = setup(&[]);
    let mint = k(2);
    ledger.register_asset(&mint, &k(5));
    let (root, bump) = derived(&user, &mint, &program);
    assert_eq!(
        new_tree_handler(&mut store, &ledger, &program, &user, &mint, &root, bump),
        Err(TreeError::NotSoleAuthority)
    );
}

#[test]
fn root_create_rejects_an_unknown_asset() {
    let (mut store, ledger, program, user) = setup(&[]);
    let mint = k(2);
    let (root, bump) = derived(&user, &mint, &program);
    assert_eq!(
        new_tree_handler(&mut store, &ledger, &program, &user, &mint, &root, bump),
        Err(TreeError::NotSoleAuthority)
    );
}

#[test]
fn root_create_rejects_a_double_allocation() {
    let (mut store, ledger, program, user) = setup(&[2]);
    let mint = k(2);
    let (root, bump) = derived(&user, &mint, &program);
    assert_eq!(new_tree_handler(&mut store, &ledger, &program, &user, &mint, &root, bump), Ok(()));
    assert_eq!(
        new_tree_handler(&mut store, &ledger, &program, &user, &mint, &root, bump),
        Err(TreeError::StorageAllocationFailed)
    );
}

#[test]
fn end_to_end_attach_then_detach() {
    // Owner O creates a root for asset A, attaches asset B at slot 0,
    // then detaches B again.
    let (mut store, mut ledger, program, user) = setup(&[2, 3]);
    let (mint_a, mint_b) = (k(2), k(3));
    let (root, root_bump) = derived(&user, &mint_a, &program);
    assert_eq!(
        new_tree_handler(&mut store, &ledger, &program, &user, &mint_a, &root, root_bump),
        Ok(())
    );

    let (node_b, b_bump) = derived(&user, &mint_b, &program);
    assert_eq!(
        add_tree_node(&mut store, &mut ledger, &program, &user, &root, &mint_b, &node_b, b_bump),
        Ok(())
    );
    // Authority over B is now the root node's address, and B sits in slot 0.
    assert_eq!(ledger.balance_of(&mint_b, &root), 1);
    assert_eq!(ledger.balance_of(&mint_b, &user), 0);
    let parent = store.get(&root).unwrap();
    match &parent.children_mint[0] {
        Some(c) => assert_eq!(c.bytes, mint_b.bytes),
        None => panic!("slot 0 must hold the attached asset"),
    }
    let child = store.get(&node_b).unwrap();
    assert_eq!(child.bump, b_bump);
    assert_eq!(child.parent_mint.bytes, mint_b.bytes);

    assert_eq!(
        extract_tree_node(&mut store, &mut ledger, &program, &user, &root, &node_b, &mint_b),
        Ok(())
    );
    // Authority over B is back with the owner, slot 0 is empty, and B's
    // node, childless, is closed.
    assert_eq!(ledger.balance_of(&mint_b, &user), 1);
    let parent = store.get(&root).unwrap();
    assert!(parent.children_mint[0].is_none());
    assert!(store.get(&node_b).is_none());
}

#[test]
fn detach_without_prior_attach_is_child_not_found() {
    // RootCreate followed immediately by Detach must fail: the fresh root
    // has no attached children.
    let (mut store, mut ledger, program, user) = setup(&[2]);
    let mint_a = k(2);
    let (root, root_bump) = derived(&user, &mint_a, &program);
    assert_eq!(
        new_tree_handler(&mut store, &ledger, &program, &user, &mint_a, &root, root_bump),
        Ok(())
    );
    assert_eq!(
        extract_tree_node(&mut store, &mut ledger, &program, &user, &root, &root, &mint_a),
        Err(TreeError::ChildNotFound)
    );
    // Nothing moved.
    assert!(store.get(&root).is_some());
    assert_eq!(ledger.balance_of(&mint_a, &user), 1);
}

#[test]
fn attaching_one_more_child_than_the_slots_hold_is_tree_full() {
    // CHILDREN_LEN distinct children fill the node; one more is rejected.
    let (mut store, mut ledger, program, user) = setup(&[2, 3, 4, 5, 6]);
    let mint_a = k(2);
    let (root, root_bump) = derived(&user, &mint_a, &program);
    assert_eq!(
        new_tree_handler(&mut store, &ledger, &program, &user, &mint_a, &root, root_bump),
        Ok(())
    );
    let children = [k(3), k(4), k(5)];
    assert_eq!(children.len(), CHILDREN_LEN);
    for (i, mint) in children.iter().enumerate() {
        let (node, bump) = derived(&user, mint, &program);
        assert_eq!(
            add_tree_node(&mut store, &mut ledger, &program, &user, &root, mint, &node, bump),
            Ok(())
        );
        let parent = store.get(&root).unwrap();
        match &parent.children_mint[i] {
            Some(c) => assert_eq!(c.bytes, mint.bytes),
            None => panic!("first-fit must fill slot {}", i),
        }
    }
    let overflow = k(6);
    let (node, bump) = derived(&user, &overflow, &program);
    assert_eq!(
        add_tree_node(&mut store, &mut ledger, &program, &user, &root, &overflow, &node, bump),
        Err(TreeError::TreeFull)
    );
}

#[test]
fn detaching_a_child_with_children_keeps_it_allocated() {
    // A -> B -> C. Detaching B from A leaves B's node allocated (it still
    // lists C); detaching C from B closes C's node.
    let (mut store, mut ledger, program, user) = setup(&[2, 3, 4]);
    let (mint_a, mint_b, mint_c) = (k(2), k(3), k(4));
    let (root, root_bump) = derived(&user, &mint_a, &program);
    assert_eq!(
        new_tree_handler(&mut store, &ledger, &program, &user, &mint_a, &root, root_bump),
        Ok(())
    );
    let (node_b, b_bump) = derived(&user, &mint_b, &program);
    assert_eq!(
        add_tree_node(&mut store, &mut ledger, &program, &user, &root, &mint_b, &node_b, b_bump),
        Ok(())
    );
    let (node_c, c_bump) = derived(&user, &mint_c, &program);
    assert_eq!(
        add_tree_node(&mut store, &mut ledger, &program, &user, &node_b, &mint_c, &node_c, c_bump),
        Ok(())
    );
    assert_eq!(ledger.balance_of(&mint_c, &node_b), 1);

    // Detach B from A: B's node survives, ownerless pending, authority back
    // with the owner.
    assert_eq!(
        extract_tree_node(&mut store, &mut ledger, &program, &user, &root, &node_b, &mint_b),
        Ok(())
    );
    let b = store.get(&node_b).unwrap();
    match &b.children_mint[0] {
        Some(c) => assert_eq!(c.bytes, mint_c.bytes),
        None => panic!("B must still list C"),
    }
    assert_eq!(ledger.balance_of(&mint_b, &user), 1);
    assert!(store.get(&root).unwrap().children_mint[0].is_none());

    // Detach C from B: C's node, childless, is closed.
    assert_eq!(
        extract_tree_node(&mut store, &mut ledger, &program, &user, &node_b, &node_c, &mint_c),
        Ok(())
    );
    assert!(store.get(&node_c).is_none());
    assert_eq!(ledger.balance_of(&mint_c, &user), 1);

    // B is no longer anyone's child: detaching it again is rejected.
    assert_eq!(
        extract_tree_node(&mut store, &mut ledger, &program, &user, &root, &node_b, &mint_b),
        Err(TreeError::ChildNotFound)
    );
}

#[test]
fn an_attached_asset_cannot_be_attached_again() {
    // Once B hangs under the root, its node address is taken: allocating it
    // again fails before anything else is looked at.
    let (mut store, mut ledger, program, user) = setup(&[2, 3]);
    let (mint_a, mint_b) = (k(2), k(3));
    let (root, root_bump) = derived(&user, &mint_a, &program);
    new_tree_handler(&mut store, &ledger, &program, &user, &mint_a, &root, root_bump).unwrap();
    let (node_b, b_bump) = derived(&user, &mint_b, &program);
    add_tree_node(&mut store, &mut ledger, &program, &user, &root, &mint_b, &node_b, b_bump)
        .unwrap();
    assert_eq!(
        add_tree_node(&mut store, &mut ledger, &program, &user, &root, &mint_b, &node_b, b_bump),
        Err(TreeError::StorageAllocationFailed)
    );
}

#[test]
fn attach_demands_sole_authority() {
    // The child asset belongs to someone else.
    let (mut store, mut ledger, program, user) = setup(&[2]);
    let (mint_a, mint_b) = (k(2), k(3));
    ledger.register_asset(&mint_b, &k(5));
    let (root, root_bump) = derived(&user, &mint_a, &program);
    new_tree_handler(&mut store, &ledger, &program, &user, &mint_a, &root, root_bump).unwrap();
    let (node_b, b_bump) = derived(&user, &mint_b, &program);
    assert_eq!(
        add_tree_node(&mut store, &mut ledger, &program, &user, &root, &mint_b, &node_b, b_bump),
        Err(TreeError::NotSoleAuthority)
    );
    assert!(store.get(&node_b).is_none());
}

#[test]
fn first_fit_reuses_a_freed_slot() {
    let (mut store, mut ledger, program, user) = setup(&[2, 3, 4, 5, 6]);
    let mint_a = k(2);
    let (root, root_bump) = derived(&user, &mint_a, &program);
    new_tree_handler(&mut store, &ledger, &program, &user, &mint_a, &root, root_bump).unwrap();
    for mint in [k(3), k(4), k(5)] {
        let (node, bump) = derived(&user, &mint, &program);
        add_tree_node(&mut store, &mut ledger, &program, &user, &root, &mint, &node, bump)
            .unwrap();
    }
    // Free slot 1, then attach a new asset: it lands in slot 1 again.
    let (node_4, _) = derived(&user, &k(4), &program);
    extract_tree_node(&mut store, &mut ledger, &program, &user, &root, &node_4, &k(4)).unwrap();
    assert!(store.get(&root).unwrap().children_mint[1].is_none());
    let late = k(6);
    let (node, bump) = derived(&user, &late, &program);
    add_tree_node(&mut store, &mut ledger, &program, &user, &root, &late, &node, bump).unwrap();
    match &store.get(&root).unwrap().children_mint[1] {
        Some(c) => assert_eq!(c.bytes, late.bytes),
        None => panic!("the freed slot must be filled first"),
    }
}

#[test]
fn a_stranger_cannot_detach() {
    let (mut store, mut ledger, program, user) = setup(&[2, 3]);
    let (mint_a, mint_b) = (k(2), k(3));
    let (root, root_bump) = derived(&user, &mint_a, &program);
    new_tree_handler(&mut store, &ledger, &program, &user, &mint_a, &root, root_bump).unwrap();
    let (node_b, b_bump) = derived(&user, &mint_b, &program);
    add_tree_node(&mut store, &mut ledger, &program, &user, &root, &mint_b, &node_b, b_bump)
        .unwrap();
    // The stranger cannot reconstruct the parent's seed tuple: the root's
    // address does not derive from the stranger's key.
    let stranger = k(7);
    assert_eq!(
        extract_tree_node(&mut store, &mut ledger, &program, &stranger, &root, &node_b, &mint_b),
        Err(TreeError::AddressMismatch)
    );
    assert_eq!(ledger.balance_of(&mint_b, &root), 1);
}

#[test]
fn attach_demands_an_existing_parent() {
    let (mut store, mut ledger, program, user) = setup(&[3]);
    let mint_b = k(3);
    let (node_b, b_bump) = derived(&user, &mint_b, &program);
    assert_eq!(
        add_tree_node(&mut store, &mut ledger, &program, &user, &k(40), &mint_b, &node_b, b_bump),
        Err(TreeError::NodeNotFound)
    );
}

#[test]
fn node_space_is_the_persisted_layout() {
    // 8-byte header + 1 salt + 32 asset id + 3 slots of (1 + 32).
    assert_eq!(TreeNode::space(), 140);
}

#[test]
fn ledger_set_authority_checks_its_proofs() {
    let mut ledger = TokenLedger::new();
    let (mint, owner, other, program) = (k(2), k(1), k(5), k(9));
    ledger.register_asset(&mint, &owner);

    // Unknown asset.
    assert_eq!(
        ledger.set_authority(&k(30), &other, &SignerProof::Signature(owner), &program),
        Err(LedgerError::AssetNotFound)
    );
    // A signature by someone who is not the authority.
    assert_eq!(
        ledger.set_authority(&mint, &other, &SignerProof::Signature(other), &program),
        Err(LedgerError::Unauthorized)
    );
    // A derived proof that does not reconstruct the authority.
    assert_eq!(
        ledger.set_authority(
            &mint,
            &other,
            &SignerProof::Derived { user: owner, asset: mint, bump: 0 },
            &program
        ),
        Err(LedgerError::Unauthorized)
    );
    // The authority's own signature moves it.
    assert_eq!(
        ledger.set_authority(&mint, &other, &SignerProof::Signature(owner), &program),
        Ok(())
    );
    assert_eq!(ledger.balance_of(&mint, &other), 1);
    assert_eq!(ledger.balance_of(&mint, &owner), 0);
}

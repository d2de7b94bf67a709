use todo_tree::key::Key;
use todo_tree::pda::{derive_node_address, verify_node_address};

fn k(n: u8) -> Key {
    Key::new([n; 32])
}

#[test]
fn derive_is_stable_across_repeated_calls() {
    let program = k(9);
    let owner = k(1);
    let asset = k(2);
    let (a1, b1) = derive_node_address(&owner, &asset, &program).unwrap();
    let (a2, b2) = derive_node_address(&owner, &asset, &program).unwrap();
    assert_eq!(a1.bytes, a2.bytes);
    assert_eq!(b1, b2);
}

#[test]
fn derive_differs_for_other_pairs() {
    let program = k(9);
    let (a_1_2, _) = derive_node_address(&k(1), &k(2), &program).unwrap();
    let (a_1_3, _) = derive_node_address(&k(1), &k(3), &program).unwrap();
    let (a_4_2, _) = derive_node_address(&k(4), &k(2), &program).unwrap();
    assert_ne!(a_1_2.bytes, a_1_3.bytes);
    assert_ne!(a_1_2.bytes, a_4_2.bytes);
    assert_ne!(a_1_3.bytes, a_4_2.bytes);
}

#[test]
fn derive_actually_derives() {
    // The derived address is a fresh hash, not any of the inputs.
    let program = k(9);
    let owner = k(1);
    let asset = k(2);
    let (addr, _) = derive_node_address(&owner, &asset, &program).unwrap();
    assert_ne!(addr.bytes, owner.bytes);
    assert_ne!(addr.bytes, asset.bytes);
    assert_ne!(addr.bytes, program.bytes);
}

#[test]
fn verify_accepts_the_derived_address_and_salt() {
    let program = k(9);
    let owner = k(1);
    let asset = k(2);
    let (addr, bump) = derive_node_address(&owner, &asset, &program).unwrap();
    assert!(verify_node_address(&addr, &owner, &asset, bump, &program));
}

#[test]
fn verify_rejects_wrong_salt_owner_or_address() {
    let program = k(9);
    let owner = k(1);
    let asset = k(2);
    let (addr, bump) = derive_node_address(&owner, &asset, &program).unwrap();
    assert!(!verify_node_address(&addr, &owner, &asset, bump.wrapping_sub(1), &program));
    assert!(!verify_node_address(&addr, &k(4), &asset, bump, &program));
    assert!(!verify_node_address(&k(42), &owner, &asset, bump, &program));
}

#[test]
fn key_equals_is_byte_equality() {
    assert!(k(5).equals(&k(5)));
    assert!(!k(5).equals(&k(6)));
    let mut almost = [7u8; 32];
    almost[31] = 8;
    assert!(!Key::new(almost).equals(&k(7)));
}

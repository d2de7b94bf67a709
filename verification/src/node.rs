//! The node record: one per tree position. A node gates one asset
//! (`parent_mint`), remembers the salt of its own derived address (`bump`),
//! and lists up to `CHILDREN_LEN` attached child assets in a fixed-size slot
//! array.

use vstd::prelude::*;

use crate::key::Key;

verus! {

broadcast use vstd::array::group_array_axioms;

/// The fixed fan-out of every node.
pub const CHILDREN_LEN: usize = 3;

/// One stored node record.
#[derive(Clone, Copy, Debug)]
pub struct TreeNode {
    /// The salt recorded at creation; part of the deterministic-address
    /// proof; immutable afterwards.
    pub bump: u8,
    /// The asset this node itself represents and gates; immutable.
    pub parent_mint: Key,
    /// Slot `i` holds the asset identity of the i-th attached child, or
    /// nothing.
    pub children_mint: [Option<Key>; CHILDREN_LEN],
}

/// The slot array of a node with no children attached.
pub open spec fn empty_children() -> [Option<Key>; CHILDREN_LEN] {
    vstd::array::spec_array_fill_for_copy_type(None)
}

/// Builds the slot array of a node with no children attached.
pub fn make_empty_children() -> (r: [Option<Key>; CHILDREN_LEN])
    ensures
        r == empty_children(),
{
    vstd::array::array_fill_for_copy_types(None)
}

/// All slots from `i` on are empty.
pub open spec fn all_empty_from(s: Seq<Option<Key>>, i: int) -> bool {
    forall|j: int| i <= j < s.len() ==> s[j] is None
}

/// Every slot is empty.
pub open spec fn all_empty(s: Seq<Option<Key>>) -> bool {
    all_empty_from(s, 0)
}

/// The first empty slot at or after position `i`, if any.
pub open spec fn first_empty_from(s: Seq<Option<Key>>, i: int) -> Option<int>
    decreases s.len() - i,
{
    if i < 0 || i >= s.len() {
        None
    } else if s[i] is None {
        Some(i)
    } else {
        first_empty_from(s, i + 1)
    }
}

/// The first empty slot of the array, if any: the slot-allocation policy.
pub open spec fn first_empty(s: Seq<Option<Key>>) -> Option<int> {
    first_empty_from(s, 0)
}

/// The first slot at or after position `i` holding `mint`, if any.
pub open spec fn first_slot_of_from(s: Seq<Option<Key>>, mint: Key, i: int) -> Option<int>
    decreases s.len() - i,
{
    if i < 0 || i >= s.len() {
        None
    } else if s[i] == Some(mint) {
        Some(i)
    } else {
        first_slot_of_from(s, mint, i + 1)
    }
}

/// The first slot holding `mint`, if any.
pub open spec fn first_slot_of(s: Seq<Option<Key>>, mint: Key) -> Option<int> {
    first_slot_of_from(s, mint, 0)
}

/// What `first_empty` promises: the found slot is empty, everything before it
/// is occupied, and `None` means everything is occupied.
pub proof fn lemma_first_empty_from_facts(s: Seq<Option<Key>>, i: int)
    requires
        0 <= i <= s.len(),
    ensures
        match first_empty_from(s, i) {
            Some(k) => i <= k < s.len() && s[k] is None && (forall|j: int|
                i <= j < k ==> s[j] is Some),
            None => forall|j: int| i <= j < s.len() ==> s[j] is Some,
        },
    decreases s.len() - i,
{
    if i < s.len() && !(s[i] is None) {
        lemma_first_empty_from_facts(s, i + 1);
    }
}

/// What `first_slot_of` promises: the found slot holds the asset, no earlier
/// slot does, and `None` means no slot does.
pub proof fn lemma_first_slot_of_from_facts(s: Seq<Option<Key>>, mint: Key, i: int)
    requires
        0 <= i <= s.len(),
    ensures
        match first_slot_of_from(s, mint, i) {
            Some(k) => i <= k < s.len() && s[k] == Some(mint) && (forall|j: int|
                i <= j < k ==> s[j] != Some(mint)),
            None => forall|j: int| i <= j < s.len() ==> s[j] != Some(mint),
        },
    decreases s.len() - i,
{
    if i < s.len() && s[i] != Some(mint) {
        lemma_first_slot_of_from_facts(s, mint, i + 1);
    }
}

impl TreeNode {
    /// The storage size of one node record, following the persisted layout
    /// exactly: an 8-byte header, the salt byte, the gated asset identity,
    /// and `CHILDREN_LEN` slots of one presence byte plus one identity each.
    pub fn space() -> (r: usize)
        ensures
            r == 8 + 1 + 32 + 3 * (1 + 32),
    {
        8 + 1 + 32 + 3 * (1 + 32)
    }

    /// The first empty slot of this node, under the first-fit allocation
    /// policy.
    pub fn first_empty_slot(&self) -> (r: Option<usize>)
        ensures
            match r {
                Some(i) => first_empty(self.children_mint@) == Some(i as int),
                None => first_empty(self.children_mint@) is None,
            },
    {
        let mut i: usize = 0;
        while i < CHILDREN_LEN
            invariant
                0 <= i <= CHILDREN_LEN,
                first_empty(self.children_mint@) == first_empty_from(self.children_mint@, i as int),
            decreases CHILDREN_LEN - i,
        {
            if self.children_mint[i].is_none() {
                return Some(i);
            }
            i += 1;
        }
        None
    }

    /// The first slot holding `mint`, if any.
    pub fn find_child(&self, mint: &Key) -> (r: Option<usize>)
        ensures
            match r {
                Some(i) => first_slot_of(self.children_mint@, *mint) == Some(i as int),
                None => first_slot_of(self.children_mint@, *mint) is None,
            },
    {
        let mut i: usize = 0;
        while i < CHILDREN_LEN
            invariant
                0 <= i <= CHILDREN_LEN,
                first_slot_of(self.children_mint@, *mint) == first_slot_of_from(
                    self.children_mint@,
                    *mint,
                    i as int,
                ),
            decreases CHILDREN_LEN - i,
        {
            match &self.children_mint[i] {
                Some(k) => {
                    if k.equals(mint) {
                        proof {
                            crate::key::lemma_key_view_injective(*k, *mint);
                        }
                        return Some(i);
                    }
                    proof {
                        crate::key::lemma_key_view_injective(*k, *mint);
                    }
                },
                None => {},
            }
            i += 1;
        }
        None
    }

    /// Whether any child slot is occupied; a node whose slots are all empty
    /// is reclaimable once detached.
    pub fn has_children(&self) -> (r: bool)
        ensures
            r == !all_empty(self.children_mint@),
    {
        let mut i: usize = 0;
        while i < CHILDREN_LEN
            invariant
                0 <= i <= CHILDREN_LEN,
                forall|j: int| 0 <= j < i ==> self.children_mint@[j] is None,
            decreases CHILDREN_LEN - i,
        {
            if self.children_mint[i].is_some() {
                return true;
            }
            i += 1;
        }
        false
    }
}

} // verus!

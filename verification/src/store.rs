//! The node store: the set of allocated node records, addressed by their
//! derived addresses, with create, mutate-in-place and close-and-reclaim.

use vstd::prelude::*;

use crate::assoc::{keys_unique, lemma_map_of_contains, lemma_map_of_index, lemma_map_of_push,
    lemma_map_of_remove, lemma_map_of_update, map_of};
use crate::key::{lemma_key_view_injective, Key};
use crate::node::TreeNode;

verus! {

/// All allocated nodes, each under its derived address.
pub struct NodeStore {
    entries: Vec<(Key, TreeNode)>,
}

impl View for NodeStore {
    type V = Map<Key, TreeNode>;

    closed spec fn view(&self) -> Map<Key, TreeNode> {
        map_of(self.entries@)
    }
}

impl NodeStore {
    /// Each address is allocated at most once.
    pub closed spec fn wf(&self) -> bool {
        keys_unique(self.entries@)
    }

    /// An empty store: nothing allocated yet.
    pub fn new() -> (r: NodeStore)
        ensures
            r@ == Map::<Key, TreeNode>::empty(),
            r.wf(),
    {
        let s = NodeStore { entries: Vec::new() };
        proof {
            assert(s.entries@.len() == 0);
        }
        s
    }

    /// The position of the record at an address, if one is allocated.
    fn index_of(&self, address: &Key) -> (r: Option<usize>)
        ensures
            match r {
                Some(i) => i < self.entries@.len() && self.entries@[i as int].0 == *address,
                None => forall|j: int|
                    0 <= j < self.entries@.len() ==> (#[trigger] self.entries@[j]).0 != *address,
            },
    {
        let mut i: usize = 0;
        while i < self.entries.len()
            invariant
                0 <= i <= self.entries@.len(),
                forall|j: int| 0 <= j < i ==> (#[trigger] self.entries@[j]).0 != *address,
            decreases self.entries@.len() - i,
        {
            let hit = self.entries[i].0.equals(address);
            proof {
                lemma_key_view_injective(self.entries@[i as int].0, *address);
            }
            if hit {
                return Some(i);
            }
            i += 1;
        }
        None
    }

    /// Whether an address is allocated.
    pub fn contains(&self, address: &Key) -> (r: bool)
        requires
            self.wf(),
        ensures
            r == self@.contains_key(*address),
    {
        proof {
            lemma_map_of_contains(self.entries@, *address);
        }
        match self.index_of(address) {
            Some(i) => {
                proof {
                    lemma_map_of_index(self.entries@, i as int);
                }
                true
            },
            None => false,
        }
    }

    /// The node at an address, if one is allocated.
    pub fn get(&self, address: &Key) -> (r: Option<TreeNode>)
        requires
            self.wf(),
        ensures
            match r {
                Some(n) => self@.contains_key(*address) && n == self@[*address],
                None => !self@.contains_key(*address),
            },
    {
        proof {
            lemma_map_of_contains(self.entries@, *address);
        }
        match self.index_of(address) {
            Some(i) => {
                proof {
                    lemma_map_of_index(self.entries@, i as int);
                }
                Some(self.entries[i].1)
            },
            None => None,
        }
    }

    /// Allocates a fresh record at an unused address.
    pub fn insert_new(&mut self, address: Key, node: TreeNode)
        requires
            old(self).wf(),
            !old(self)@.contains_key(address),
        ensures
            final(self).wf(),
            final(self)@ == old(self)@.insert(address, node),
    {
        proof {
            lemma_map_of_contains(self.entries@, address);
            lemma_map_of_push(self.entries@, address, node);
        }
        self.entries.push((address, node));
    }

    /// Overwrites the record at an allocated address.
    pub fn put(&mut self, address: &Key, node: TreeNode)
        requires
            old(self).wf(),
            old(self)@.contains_key(*address),
        ensures
            final(self).wf(),
            final(self)@ == old(self)@.insert(*address, node),
    {
        proof {
            lemma_map_of_contains(self.entries@, *address);
        }
        let i = match self.index_of(address) {
            Some(i) => i,
            None => {
                proof {
                    assert(false);
                }
                0
            },
        };
        proof {
            lemma_map_of_update(self.entries@, i as int, node);
        }
        let k = self.entries[i].0;
        self.entries[i] = (k, node);
    }

    /// Closes the record at an allocated address and reclaims its storage.
    pub fn remove_entry(&mut self, address: &Key)
        requires
            old(self).wf(),
            old(self)@.contains_key(*address),
        ensures
            final(self).wf(),
            final(self)@ == old(self)@.remove(*address),
    {
        proof {
            lemma_map_of_contains(self.entries@, *address);
        }
        let i = match self.index_of(address) {
            Some(i) => i,
            None => {
                proof {
                    assert(false);
                }
                0
            },
        };
        proof {
            lemma_map_of_remove(self.entries@, i as int);
        }
        self.entries.remove(i);
    }
}

} // verus!

//! The flat list-and-bounty subsystem: a capacity-bounded list of
//! bounty-carrying items, each completed by agreement of its creator and the
//! list owner, or cancelled by either.
//!
//! The platform edges stay with the caller: allocating and closing item
//! storage and moving the bounty's funds. `add` hands back the amount to
//! move, and `finish` says whether the item is to be closed.

use vstd::prelude::*;

use crate::key::{lemma_key_view_injective, Key};
use vstd::slice::{slice_subrange, slice_to_vec};
use vstd::string::StringSliceAdditionalSpecFns;

verus! {

/// Why a list operation was rejected. Rejection changes nothing.
#[derive(Clone, Copy, Debug, PartialEq, Eq, Structural)]
pub enum TodoListError {
    /// This list is full.
    ListFull,
    /// Bounty must cover what the item's storage already holds.
    BountyTooSmall,
    /// Only the list owner or item creator may cancel an item.
    CancelPermissions,
    /// Only the list owner or item creator may finish an item.
    FinishPermissions,
    /// Item does not belong to this todo list.
    ItemNotFound,
    /// Specified list owner does not match the one in the list.
    WrongListOwner,
    /// Specified item creator does not match the one in the item.
    WrongItemCreator,
}

/// One list: its owner, the salt of its derived address, its fixed capacity,
/// its name, and the addresses of its items.
pub struct TodoList {
    pub list_owner: Key,
    pub bump: u8,
    pub capacity: u16,
    pub name: String,
    pub lines: Vec<Key>,
}

/// One list item: the list it belongs to, who created it, the two completion
/// flags, the salt of its derived address, and its name.
pub struct ListItem {
    pub list: Key,
    pub creator: Key,
    pub creator_finished: bool,
    pub list_owner_finished: bool,
    pub bump: u8,
    pub name: String,
}

/// The first up-to-32 bytes of a name: the seed a list or item address is
/// derived from.
pub open spec fn spec_name_seed(b: Seq<u8>) -> Seq<u8> {
    if b.len() > 32 {
        b.subrange(0, 32)
    } else {
        b
    }
}

/// Truncates a name to the at-most-32 bytes used as an address seed.
pub fn name_seed(name: &str) -> (r: Vec<u8>)
    ensures
        r@ == spec_name_seed(name.spec_bytes()),
{
    let b = name.as_bytes();
    if b.len() > 32 {
        slice_to_vec(slice_subrange(b, 0, 32))
    } else {
        slice_to_vec(b)
    }
}

/// The sequence with every occurrence of one key dropped, order kept.
pub open spec fn without_key(s: Seq<Key>, key: Key) -> Seq<Key>
    decreases s.len(),
{
    if s.len() == 0 {
        Seq::empty()
    } else if s.last() == key {
        without_key(s.drop_last(), key)
    } else {
        without_key(s.drop_last(), key).push(s.last())
    }
}

/// Whether a key occurs among the list's items.
fn lines_contains(v: &Vec<Key>, key: &Key) -> (r: bool)
    ensures
        r == v@.contains(*key),
{
    let mut i: usize = 0;
    while i < v.len()
        invariant
            0 <= i <= v@.len(),
            forall|j: int| 0 <= j < i ==> v@[j] != *key,
        decreases v@.len() - i,
    {
        let hit = v[i].equals(key);
        proof {
            lemma_key_view_injective(v@[i as int], *key);
        }
        if hit {
            return true;
        }
        i += 1;
    }
    proof {
        if v@.contains(*key) {
            let j = choose|j: int| 0 <= j < v@.len() && v@[j] == *key;
            assert(false);
        }
    }
    false
}

/// Drops every occurrence of one key, keeping the order of the rest.
fn remove_matching(v: &mut Vec<Key>, key: &Key)
    ensures
        final(v)@ == without_key(old(v)@, *key),
{
    let ghost orig = v@;
    let mut out: Vec<Key> = Vec::new();
    let mut i: usize = 0;
    while i < v.len()
        invariant
            v@ == orig,
            0 <= i <= orig.len(),
            out@ == without_key(orig.subrange(0, i as int), *key),
        decreases orig.len() - i,
    {
        proof {
            assert(orig.subrange(0, i + 1int).drop_last() =~= orig.subrange(0, i as int));
            assert(orig.subrange(0, i + 1int).last() == orig[i as int]);
            lemma_key_view_injective(orig[i as int], *key);
        }
        let keep = !v[i].equals(key);
        if keep {
            out.push(v[i]);
        }
        i += 1;
    }
    proof {
        assert(orig.subrange(0, orig.len() as int) =~= orig);
    }
    *v = out;
}

impl TodoList {
    /// The storage size of a list with this name and capacity: a fixed
    /// header, the owner, the salt, the capacity, the name, and room for
    /// `capacity` item addresses.
    pub fn space(name: &str, capacity: u16) -> (r: usize)
        requires
            name.spec_bytes().len() + 51 + capacity * 32 <= usize::MAX,
        ensures
            r == 8 + 32 + 1 + 2 + 4 + name.spec_bytes().len() + 4 + capacity * 32,
    {
        8 + 32 + 1 + 2 + 4 + name.len() + 4 + (capacity as usize) * 32
    }
}

impl ListItem {
    /// The storage size of an item with this name: a fixed header, the list
    /// and creator addresses, the two flags, the salt, and the name.
    pub fn space(name: &str) -> (r: usize)
        requires
            name.spec_bytes().len() + 79 <= usize::MAX,
        ensures
            r == 8 + 32 + 32 + 1 + 1 + 1 + 4 + name.spec_bytes().len(),
    {
        8 + 32 + 32 + 1 + 1 + 1 + 4 + name.len()
    }
}

/// Creates a list owned by the caller, empty, with its name, capacity and
/// address salt recorded.
pub fn new_list(user: &Key, name: String, capacity: u16, account_bump: u8) -> (l: TodoList)
    ensures
        l.list_owner == *user,
        l.bump == account_bump,
        l.capacity == capacity,
        l.name == name,
        l.lines@ == Seq::<Key>::empty(),
{
    let l = TodoList { list_owner: *user, bump: account_bump, capacity, name, lines: Vec::new() };
    proof {
        assert(l.lines@ =~= Seq::<Key>::empty());
    }
    l
}

/// Adds an item to a list: records the item's address in the list, builds
/// the item record, and returns it with the amount the caller must move into
/// the item's storage so that it holds the full bounty. Rejects a full list
/// and a bounty smaller than what the storage already holds; rejection
/// changes nothing.
pub fn add(
    list: &mut TodoList,
    list_address: &Key,
    list_owner: &Key,
    user: &Key,
    item_address: &Key,
    item_name: String,
    item_bump: u8,
    bounty: u64,
    item_lamports: u64,
) -> (r: Result<(ListItem, u64), TodoListError>)
    ensures
        r is Ok <==> (old(list).list_owner == *list_owner && old(list).lines@.len() < old(
            list,
        ).capacity && bounty >= item_lamports),
        match r {
            Ok((item, transfer_amount)) => {
                &&& final(list).lines@ == old(list).lines@.push(*item_address)
                &&& final(list).list_owner == old(list).list_owner
                &&& final(list).bump == old(list).bump
                &&& final(list).capacity == old(list).capacity
                &&& final(list).name == old(list).name
                &&& item.list == *list_address
                &&& item.creator == *user
                &&& item.creator_finished == false
                &&& item.list_owner_finished == false
                &&& item.bump == item_bump
                &&& item.name == item_name
                &&& transfer_amount == bounty - item_lamports
            },
            Err(e) => {
                &&& *final(list) == *old(list)
                &&& (e == TodoListError::WrongListOwner <==> old(list).list_owner != *list_owner)
                &&& (e == TodoListError::ListFull <==> old(list).list_owner == *list_owner && old(
                    list,
                ).lines@.len() >= old(list).capacity)
                &&& (e == TodoListError::BountyTooSmall <==> old(list).list_owner == *list_owner
                    && old(list).lines@.len() < old(list).capacity && bounty < item_lamports)
            },
        },
{
    let owner_ok = list.list_owner.equals(list_owner);
    proof {
        lemma_key_view_injective(list.list_owner, *list_owner);
    }
    if !owner_ok {
        return Err(TodoListError::WrongListOwner);
    }
    if !(list.lines.len() < list.capacity as usize) {
        return Err(TodoListError::ListFull);
    }
    if bounty < item_lamports {
        return Err(TodoListError::BountyTooSmall);
    }
    let transfer_amount = bounty - item_lamports;
    list.lines.push(*item_address);
    let item = ListItem {
        list: *list_address,
        creator: *user,
        creator_finished: false,
        list_owner_finished: false,
        bump: item_bump,
        name: item_name,
    };
    Ok((item, transfer_amount))
}

/// Cancels an item: the list owner or the item's creator drops it from the
/// list; the caller then closes the item's storage, returning its deposit to
/// the item's creator. Rejection changes nothing.
pub fn cancel(
    list: &mut TodoList,
    list_owner: &Key,
    item: &ListItem,
    item_address: &Key,
    item_creator: &Key,
    user: &Key,
) -> (r: Result<(), TodoListError>)
    ensures
        r is Ok <==> (old(list).list_owner == *list_owner && item.creator == *item_creator && (
        *user == old(list).list_owner || *user == item.creator) && old(list).lines@.contains(
            *item_address,
        )),
        match r {
            Ok(()) => {
                &&& final(list).lines@ == without_key(old(list).lines@, *item_address)
                &&& final(list).list_owner == old(list).list_owner
                &&& final(list).bump == old(list).bump
                &&& final(list).capacity == old(list).capacity
                &&& final(list).name == old(list).name
            },
            Err(e) => {
                &&& *final(list) == *old(list)
                &&& (e == TodoListError::WrongListOwner <==> old(list).list_owner != *list_owner)
                &&& (e == TodoListError::WrongItemCreator <==> old(list).list_owner == *list_owner
                    && item.creator != *item_creator)
                &&& (e == TodoListError::CancelPermissions <==> old(list).list_owner == *list_owner
                    && item.creator == *item_creator && *user != old(list).list_owner && *user
                    != item.creator)
                &&& (e == TodoListError::ItemNotFound <==> old(list).list_owner == *list_owner
                    && item.creator == *item_creator && (*user == old(list).list_owner || *user
                    == item.creator) && !old(list).lines@.contains(*item_address))
            },
        },
{
    let owner_ok = list.list_owner.equals(list_owner);
    proof {
        lemma_key_view_injective(list.list_owner, *list_owner);
    }
    if !owner_ok {
        return Err(TodoListError::WrongListOwner);
    }
    let creator_ok = item.creator.equals(item_creator);
    proof {
        lemma_key_view_injective(item.creator, *item_creator);
    }
    if !creator_ok {
        return Err(TodoListError::WrongItemCreator);
    }
    let user_is_owner = list.list_owner.equals(user);
    let user_is_creator = item.creator.equals(user);
    proof {
        lemma_key_view_injective(list.list_owner, *user);
        lemma_key_view_injective(item.creator, *user);
    }
    if !(user_is_owner || user_is_creator) {
        return Err(TodoListError::CancelPermissions);
    }
    if !lines_contains(&list.lines, item_address) {
        return Err(TodoListError::ItemNotFound);
    }
    remove_matching(&mut list.lines, item_address);
    Ok(())
}

/// Finishes an item for one of its two parties: sets the caller's completion
/// flag; once both flags stand, drops the item from the list and reports it
/// closed — the caller then closes the item's storage, returning its deposit
/// to the list owner. Rejection changes nothing.
pub fn finish(
    list: &mut TodoList,
    list_owner: &Key,
    item: &mut ListItem,
    item_address: &Key,
    user: &Key,
) -> (r: Result<bool, TodoListError>)
    ensures
        r is Ok <==> (old(list).list_owner == *list_owner && old(list).lines@.contains(
            *item_address,
        ) && (*user == old(item).creator || *user == old(list).list_owner)),
        match r {
            Ok(closed) => {
                let creator_now = old(item).creator_finished || *user == old(item).creator;
                let owner_now = old(item).list_owner_finished || *user == old(list).list_owner;
                &&& final(item).creator_finished == creator_now
                &&& final(item).list_owner_finished == owner_now
                &&& final(item).list == old(item).list
                &&& final(item).creator == old(item).creator
                &&& final(item).bump == old(item).bump
                &&& final(item).name == old(item).name
                &&& closed == (creator_now && owner_now)
                &&& final(list).lines@ == (if closed {
                    without_key(old(list).lines@, *item_address)
                } else {
                    old(list).lines@
                })
                &&& final(list).list_owner == old(list).list_owner
                &&& final(list).bump == old(list).bump
                &&& final(list).capacity == old(list).capacity
                &&& final(list).name == old(list).name
            },
            Err(e) => {
                &&& *final(list) == *old(list)
                &&& *final(item) == *old(item)
                &&& (e == TodoListError::WrongListOwner <==> old(list).list_owner != *list_owner)
                &&& (e == TodoListError::ItemNotFound <==> old(list).list_owner == *list_owner
                    && !old(list).lines@.contains(*item_address))
                &&& (e == TodoListError::FinishPermissions <==> old(list).list_owner == *list_owner
                    && old(list).lines@.contains(*item_address) && *user != old(item).creator
                    && *user != old(list).list_owner)
            },
        },
{
    let owner_ok = list.list_owner.equals(list_owner);
    proof {
        lemma_key_view_injective(list.list_owner, *list_owner);
    }
    if !owner_ok {
        return Err(TodoListError::WrongListOwner);
    }
    if !lines_contains(&list.lines, item_address) {
        return Err(TodoListError::ItemNotFound);
    }
    let is_item_creator = item.creator.equals(user);
    let is_list_owner = list.list_owner.equals(user);
    proof {
        lemma_key_view_injective(item.creator, *user);
        lemma_key_view_injective(list.list_owner, *user);
    }
    if !(is_item_creator || is_list_owner) {
        return Err(TodoListError::FinishPermissions);
    }
    if is_item_creator {
        item.creator_finished = true;
    }
    if is_list_owner {
        item.list_owner_finished = true;
    }
    if item.creator_finished && item.list_owner_finished {
        remove_matching(&mut list.lines, item_address);
        Ok(true)
    } else {
        Ok(false)
    }
}

} // verus!

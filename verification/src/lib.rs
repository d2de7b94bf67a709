//! A bounded-fan-out hierarchy of resource records, each gating exclusive
//! control ("authority") over one uniquely identified asset.
//!
//! The tree protocol (`build_tree`) creates root nodes, attaches child assets
//! to a parent node by transferring authority over the child asset to the
//! parent node's derived address, and detaches them by transferring authority
//! back to the original owner, with the parent node acting as co-signer
//! through a reconstructed seed-and-salt proof.
//!
//! A flat todo-list subsystem (`todo_list`) manages bounty-carrying list
//! items with two-party completion.

mod assoc;
pub mod build_tree;
pub mod key;
pub mod laws;
pub mod ledger;
pub mod node;
pub mod pda;
pub mod store;
pub mod todo_list;

pub use key::Key;

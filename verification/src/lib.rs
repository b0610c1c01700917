//! Searching an iterator with a predicate that can fail.
//!
//! [`TryFindExt::try_find`] walks an iterator and hands each item to a
//! predicate that answers "no match", "match" or "failure". The walk ends at
//! the first answer that is not "no match"; the iterator is left right behind
//! the item that ended it, so it can be searched again from there.
//!
//! * [`fallible`] holds the two-sided values the search works with.
//! * [`search`] says, over sequences, which outcomes a search may have,
//!   and proves what follows from that.
//! * [`try_find`] holds the search itself.

// The standard library holds back a method of the same name on iterators;
// while it does, a call written with a dot means the one defined here.
#![allow(unstable_name_collisions)]

pub mod fallible;
pub mod search;
pub mod try_find;

pub use fallible::Fallible;
pub use try_find::TryFindExt;

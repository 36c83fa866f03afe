//! Linked lists, each built on a different way of owning a chain of nodes.
//!
//! - [`first`]: a stack of `i32` values whose nodes each own the next one.
//! - [`second`]: the same stack for values of any type, with a look at the
//!   top and iteration by value, by reference and by mutable reference.
//! - [`third`]: a persistent list whose handles share their common tails.
//! - [`fourth`]: a doubly linked deque whose nodes are each reached through
//!   two links.
//! - [`model`]: what the four have in common, stated over sequences, and the
//!   laws that follow from it.
//!
//! Every container has a view, the sequence of its values with the top (the
//! head, the front) first, and the contract of every operation says what it
//! returns and what it does to that view.

pub mod first;
pub mod fourth;
pub mod model;
pub mod second;
pub mod third;

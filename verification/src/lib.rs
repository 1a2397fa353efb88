//! An in-process multi-producer, single-consumer message channel with
//! unbounded and capacity-bounded delivery, together with a few small
//! verified data structures that share the repository.
//!
//! The channel's shared state and every delivery decision live in
//! [`mpsc`], as a sequential core whose transitions carry exact
//! contracts; a concurrent shell only has to guard that core with a
//! lock and turn the `Full` / `WouldBlock` outcomes into condition
//! variable waits.

pub mod binary_tree;
pub mod linked_list;
pub mod model;
pub mod mpsc;
pub mod pairing;

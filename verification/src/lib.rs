//! Reconciles a queue of signed spend transactions with a Bitcoin node:
//! every pending transaction is submitted again on each tick until the node
//! accepts it (or says that it already knows it), and is then marked as
//! broadcasted, once.
//!
//! The crate holds the decisions of that loop and performs no I/O itself.

pub mod error;
pub mod laws;
pub mod machine;
pub mod outcome;
pub mod settlement;
pub mod store;
pub mod tx;

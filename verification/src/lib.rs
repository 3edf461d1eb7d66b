//! Transaction-sequencing core: a staging queue for transactions and atomic
//! bundles, a block assembler that drains it under a size and time policy, and
//! an append-only, height-indexed block log that consumers follow.

pub mod assembler;
pub mod block;
pub mod bundle;
pub mod entry;
pub mod error;
pub mod evm;
pub mod facade;
pub mod guarantees;
pub mod log;
pub mod queue;
pub mod transaction;

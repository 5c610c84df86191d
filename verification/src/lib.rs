//! A sharded I/O reactor core for cooperative tasks.
//!
//! The crate holds the decisions of the reactor: which shard owns a
//! descriptor, what a dequeued notification does to the operation it names,
//! how timers and completions race for the parked task, and how the connect
//! request drives itself. The operating-system calls are made by the caller,
//! which hands in the notifications and performs the returned requests.

pub mod flags;
pub mod timeout;
pub mod timer;
pub mod event;
pub mod shard;
pub mod selector;
pub mod laws;
pub mod connect;
pub mod iocp;

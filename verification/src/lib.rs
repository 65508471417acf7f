//! One-shot migration of recorded ledger blocks to a remote ledger service.
//!
//! The library holds the rules of a migration run: how the ordered block list
//! is cut into chunks, how a chunk becomes the argument of the remote call and
//! how the reply is judged, how long a pending call is waited for, and the
//! state machine that drives a run from its first step to `Done` or to the
//! first failure. Reading files, querying the local store and talking to the
//! network are left to the program that embeds the library.

pub mod batcher;
pub mod error;
pub mod identity;
pub mod ledger;
pub mod orchestrator;
pub mod replay;
pub mod wait;

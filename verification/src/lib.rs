//! Commit-reveal consensus rounds for sharded contract chains, and the
//! per-block context that gathers transaction tags and roothash messages.

pub mod common;
pub mod consensus;
pub mod transaction;

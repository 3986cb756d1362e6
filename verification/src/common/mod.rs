//! Fixed-width byte values, error kinds, signatures and roothash messages
//! shared by all modules.

pub mod bytes;
pub mod error;
pub mod roothash;
pub mod signature;

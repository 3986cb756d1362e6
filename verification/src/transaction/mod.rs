//! What the transactions of one block emit while they run: tags for the
//! index, and messages for the roothash layer.

pub mod context;
pub mod tags;

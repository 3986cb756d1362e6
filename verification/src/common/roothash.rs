//! Messages from a transaction to the roothash layer.

use vstd::prelude::*;

verus! {

/// An instruction that a transaction sends out with the block that contains
/// it. Nothing here looks inside it; the order in which messages were sent is
/// what receivers rely on.
#[derive(Clone, Debug, PartialEq, Eq)]
pub struct RoothashMessage {
    /// The encoded instruction.
    pub payload: Vec<u8>,
}

impl View for RoothashMessage {
    type V = Seq<u8>;

    /// A message is known by its bytes.
    open spec fn view(&self) -> Seq<u8> {
        self.payload@
    }
}

impl RoothashMessage {
    /// The message with the given bytes.
    pub fn new(payload: Vec<u8>) -> (message: RoothashMessage)
        ensures
            message@ == payload@,
    {
        RoothashMessage { payload }
    }
}

/// The bytes of each message of a list, in order.
pub open spec fn messages_view(messages: Seq<RoothashMessage>) -> Seq<Seq<u8>> {
    Seq::new(messages.len(), |i: int| messages[i]@)
}

} // verus!

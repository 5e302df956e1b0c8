use vstd::prelude::*;

verus! {

/// A chat line sent by one session, to be relayed to every session.
pub struct Message {
    /// Id of the client session
    pub id: usize,
    /// Peer message
    pub msg: String,
}

} // verus!

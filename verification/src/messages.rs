//! The wire vocabulary nodes exchange. A peer is identified by a
//! process-unique 128-bit id and reached at a textual address; the
//! surrounding process turns these messages into newline-framed text on the
//! wire and back.

use vstd::prelude::*;

use crate::chain::Chain;
use crate::transaction::Transaction;

verus! {

/// Messages in terms of being a request, a response or a broadcast.
pub enum Messages<T> {
    /// Request: ping a node to register to it as a new peer.
    Ping((u128, String)),
    /// Response to a ping: the replier's id, address and chain snapshot.
    Pong((u128, String, Chain<T>)),
    /// Broadcast: gossip the ids and addresses of known peers.
    PeerList(Vec<(u128, String)>),
    /// Broadcast: a new transaction.
    Transaction(Transaction<T>),
}

} // verus!

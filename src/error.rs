use vstd::prelude::*;

use crate::channels::{ChannelId, ClientId};

verus! {

/// Failures of the replication layer.
#[derive(Clone, Copy, Debug, PartialEq, Eq, Structural)]
pub enum NetworkError {
    /// A connect was reported for a connection that is already live.
    AlreadyConnected(ClientId),
    /// A disconnect was reported for a connection that is not live.
    NotConnected(ClientId),
    /// The bytes that arrived on a channel do not match its schema.
    Deserialization(ChannelId),
}

impl NetworkError {
    /// A human-readable description of the error.
    pub fn describe(&self) -> (r: String)
        ensures
            self is AlreadyConnected ==> r@ == "connection is already live"@,
            self is NotConnected ==> r@ == "connection is not live"@,
            self is Deserialization ==> r@ == "payload does not match the channel's schema"@,
    {
        match self {
            NetworkError::AlreadyConnected(_) => String::from_str("connection is already live"),
            NetworkError::NotConnected(_) => String::from_str("connection is not live"),
            NetworkError::Deserialization(_) => String::from_str(
                "payload does not match the channel's schema",
            ),
        }
    }
}

} // verus!

//! The client's error taxonomy.
use vstd::prelude::*;

verus! {

/// Why one dispatch or publish attempt failed.
#[derive(Debug, Clone)]
pub enum ClientError {
    /// The auxiliary data was not a valid hex string (odd length or a
    /// character outside `0-9a-fA-F`).
    InvalidHex,
    /// The transaction code was empty.
    EmptyCode,
    /// A local input file could not be read; the detail says why.
    FileUnreadable(String),
    /// The remote endpoint could not be reached or the connection dropped.
    Transport(String),
    /// The node processed the request and rejected it, with its reason.
    NodeRejected(String),
    /// The gossip service processed the message and refused it.
    GossipRejected(String),
}

impl ClientError {
    /// The failure lies in the caller's own input: no network call was made.
    pub open spec fn spec_is_input_error(&self) -> bool {
        self is InvalidHex || self is EmptyCode || self is FileUnreadable
    }

    /// The request reached the remote peer, which refused it.
    pub open spec fn spec_is_rejection(&self) -> bool {
        self is NodeRejected || self is GossipRejected
    }

    /// Whether the failure lies in the caller's own input.
    pub fn is_input_error(&self) -> (r: bool)
        ensures
            r == self.spec_is_input_error(),
    {
        match self {
            ClientError::InvalidHex | ClientError::EmptyCode | ClientError::FileUnreadable(_) => true,
            _ => false,
        }
    }

    /// Whether the remote peer received the request and refused it.
    pub fn is_rejection(&self) -> (r: bool)
        ensures
            r == self.spec_is_rejection(),
    {
        match self {
            ClientError::NodeRejected(_) | ClientError::GossipRejected(_) => true,
            _ => false,
        }
    }
}

} // verus!

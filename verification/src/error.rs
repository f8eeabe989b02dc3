//! Errors of the P2P system.
use vstd::prelude::*;

use crate::types::PeerId;

verus! {

/// Errors that can occur in the p2p system
#[derive(Debug)]
pub enum P2PError {
    /// A network failure, with its description
    Network(String),
    /// A failure to encode or decode a message, with its description
    Serialization(String),
    /// A message failed verification
    Verification(String),
    /// A message is malformed or out of place
    InvalidMessage(String),
    /// No connection to this peer is known
    PeerNotFound(PeerId),
    /// A connection to this peer already exists
    AlreadyConnected(PeerId),
    /// The connection table is full
    MaxConnectionsReached,
    /// A message carried a protocol version that is not ours
    InvalidProtocolVersion(u32),
    /// The protocol could not proceed
    ProtocolError(String),
}

} // verus!

verus! {

/// What a [`P2PError`] holds, with its strings as character sequences.
pub enum P2PErrorView {
    Network(Seq<char>),
    Serialization(Seq<char>),
    Verification(Seq<char>),
    InvalidMessage(Seq<char>),
    PeerNotFound(PeerId),
    AlreadyConnected(PeerId),
    MaxConnectionsReached,
    InvalidProtocolVersion(u32),
    ProtocolError(Seq<char>),
}

impl View for P2PError {
    type V = P2PErrorView;

    open spec fn view(&self) -> P2PErrorView {
        match self {
            P2PError::Network(s) => P2PErrorView::Network(s@),
            P2PError::Serialization(s) => P2PErrorView::Serialization(s@),
            P2PError::Verification(s) => P2PErrorView::Verification(s@),
            P2PError::InvalidMessage(s) => P2PErrorView::InvalidMessage(s@),
            P2PError::PeerNotFound(p) => P2PErrorView::PeerNotFound(*p),
            P2PError::AlreadyConnected(p) => P2PErrorView::AlreadyConnected(*p),
            P2PError::MaxConnectionsReached => P2PErrorView::MaxConnectionsReached,
            P2PError::InvalidProtocolVersion(v) => P2PErrorView::InvalidProtocolVersion(*v),
            P2PError::ProtocolError(s) => P2PErrorView::ProtocolError(s@),
        }
    }
}

/// The view of a result that carries no value on success.
pub open spec fn unit_result_view(r: Result<(), P2PError>) -> Result<(), P2PErrorView> {
    match r {
        Ok(()) => Ok(()),
        Err(e) => Err(e@),
    }
}

} // verus!

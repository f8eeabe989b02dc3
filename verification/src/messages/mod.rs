//! Messages for the P2P network: every message type used in the Citrea network.
use vstd::prelude::*;

pub mod blocks;
pub mod envelope;
pub mod proofs;
pub mod transactions;

use crate::error::P2PError;
use crate::types::PeerId;
use envelope::{CitreaMessage, MessageEnvelope};

verus! {

/// A message whose signature can be checked.
pub trait SignedMessage {
    /// Verify the signature of the message
    fn verify_signature(&self) -> Result<(), P2PError>;
}

/// A message whose contents can be checked.
pub trait VerifiableMessage {
    /// Verify the contents of the message
    fn verify(&self) -> Result<(), P2PError>;
}

/// Default chain ID for the Citrea network
pub const DEFAULT_CHAIN_ID: u64 = 2424;

/// Create a new message envelope for the default chain
pub fn create_message(message: CitreaMessage, sender: Option<PeerId>) -> (res: MessageEnvelope)
    ensures
        res.version == envelope::PROTOCOL_VERSION,
        res.payload == message,
        res.sender == sender,
        res.chain_id == DEFAULT_CHAIN_ID,
{
    MessageEnvelope::new(message, DEFAULT_CHAIN_ID, sender)
}

/// Create a new message envelope for a specific chain
pub fn create_message_for_chain(message: CitreaMessage, chain_id: u64, sender: Option<PeerId>) -> (res:
    MessageEnvelope)
    ensures
        res.version == envelope::PROTOCOL_VERSION,
        res.payload == message,
        res.sender == sender,
        res.chain_id == chain_id,
{
    MessageEnvelope::new(message, chain_id, sender)
}

} // verus!

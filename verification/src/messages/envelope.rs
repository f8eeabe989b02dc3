//! The envelope that carries every Citrea message, and the message enum itself.
use vstd::prelude::*;

use super::blocks::{
    l2_block_verdict, BlockAnnouncementMessage, BlockRangeRequestMessage, BlockRangeResponseMessage,
    BlockRequestMessage, L2BlockMessage,
};
use super::proofs::{
    light_client_verdict, signature_verdict, BatchProofMessage, LightClientProofMessage,
    SequencerCommitmentMessage,
};
use super::transactions::{format_ok, EVMTransactionMessage, EVMTransactionType};
use super::{SignedMessage, VerifiableMessage};
use crate::clock::unix_now_secs;
use crate::error::{unit_result_view, P2PError, P2PErrorView};
use crate::types::PeerId;

verus! {

/// Protocol version for the messaging system
pub const PROTOCOL_VERSION: u16 = 1;

/// Custom message for application-specific data
#[derive(Debug)]
pub struct Custom {
    /// Message type identifier
    pub message_type: String,
    /// Custom data payload
    pub data: Vec<u8>,
}

impl Custom {
    /// Create a new custom message
    pub fn new(message_type: String, data: Vec<u8>) -> (res: Self)
        ensures
            res.message_type@ == message_type@,
            res.data == data,
    {
        Custom { message_type, data }
    }
}

/// The main message enum that covers all possible message types in the Citrea network.
#[derive(Debug)]
pub enum CitreaMessage {
    /// Block-related messages containing L2 block data
    L2Block(L2BlockMessage),
    /// Block announcement (lightweight block notification)
    BlockAnnouncement(BlockAnnouncementMessage),
    /// Block request message
    BlockRequest(BlockRequestMessage),
    /// Request for a range of blocks
    BlockRangeRequest(BlockRangeRequestMessage),
    /// Response carrying a range of blocks
    BlockRangeResponse(BlockRangeResponseMessage),
    /// Sequencer commitment messages for L2 state
    SequencerCommitment(SequencerCommitmentMessage),
    /// Proof messages for batches
    BatchProof(BatchProofMessage),
    /// Light client proof messages
    LightClientProof(LightClientProofMessage),
    /// EVM transaction messages
    EVMTransaction(EVMTransactionMessage),
    /// Custom messages
    Custom(Custom),
}

/// The name of a message's kind, as used in logs.
pub open spec fn spec_message_type(m: CitreaMessage) -> Seq<char> {
    match m {
        CitreaMessage::L2Block(_) => "L2Block"@,
        CitreaMessage::BlockAnnouncement(_) => "BlockAnnouncement"@,
        CitreaMessage::BlockRequest(_) => "BlockRequest"@,
        CitreaMessage::BlockRangeRequest(_) => "BlockRangeRequest"@,
        CitreaMessage::BlockRangeResponse(_) => "BlockRangeResponse"@,
        CitreaMessage::SequencerCommitment(_) => "SequencerCommitment"@,
        CitreaMessage::BatchProof(_) => "BatchProof"@,
        CitreaMessage::LightClientProof(_) => "LightClientProof"@,
        CitreaMessage::EVMTransaction(_) => "EVMTransaction"@,
        CitreaMessage::Custom(_) => "Custom"@,
    }
}

/// The outcome of checking a message according to its kind.
pub open spec fn message_verdict(m: CitreaMessage) -> Result<(), P2PErrorView> {
    match m {
        CitreaMessage::L2Block(b) => l2_block_verdict(b),
        CitreaMessage::SequencerCommitment(c) => signature_verdict(c.signature),
        CitreaMessage::BatchProof(p) => signature_verdict(p.signature),
        CitreaMessage::LightClientProof(p) => light_client_verdict(p.zk_proof@),
        CitreaMessage::EVMTransaction(t) => if format_ok(t.payload@, t.tx_type) {
            Ok(())
        } else {
            Err(P2PErrorView::Verification("Invalid EVM transaction format"@))
        },
        _ => Ok(()),
    }
}

impl CitreaMessage {
    /// Get a string description of the message type for logging
    pub fn message_type(&self) -> (res: &'static str)
        ensures
            res@ == spec_message_type(*self),
    {
        match self {
            CitreaMessage::L2Block(_) => "L2Block",
            CitreaMessage::BlockAnnouncement(_) => "BlockAnnouncement",
            CitreaMessage::BlockRequest(_) => "BlockRequest",
            CitreaMessage::BlockRangeRequest(_) => "BlockRangeRequest",
            CitreaMessage::BlockRangeResponse(_) => "BlockRangeResponse",
            CitreaMessage::SequencerCommitment(_) => "SequencerCommitment",
            CitreaMessage::BatchProof(_) => "BatchProof",
            CitreaMessage::LightClientProof(_) => "LightClientProof",
            CitreaMessage::EVMTransaction(_) => "EVMTransaction",
            CitreaMessage::Custom(_) => "Custom",
        }
    }

    /// Try to get this message as an L2BlockMessage
    pub fn as_l2_block(&self) -> (res: Option<&L2BlockMessage>)
        ensures
            res == (match *self {
                CitreaMessage::L2Block(m) => Some(&m),
                _ => None,
            }),
    {
        match self {
            CitreaMessage::L2Block(msg) => Some(msg),
            _ => None,
        }
    }

    /// Try to get this message as a BlockAnnouncementMessage
    pub fn as_block_announcement(&self) -> (res: Option<&BlockAnnouncementMessage>)
        ensures
            res == (match *self {
                CitreaMessage::BlockAnnouncement(m) => Some(&m),
                _ => None,
            }),
    {
        match self {
            CitreaMessage::BlockAnnouncement(msg) => Some(msg),
            _ => None,
        }
    }

    /// Try to get this message as a BlockRequestMessage
    pub fn as_block_request(&self) -> (res: Option<&BlockRequestMessage>)
        ensures
            res == (match *self {
                CitreaMessage::BlockRequest(m) => Some(&m),
                _ => None,
            }),
    {
        match self {
            CitreaMessage::BlockRequest(msg) => Some(msg),
            _ => None,
        }
    }

    /// Try to get this message as a SequencerCommitmentMessage
    pub fn as_sequencer_commitment(&self) -> (res: Option<&SequencerCommitmentMessage>)
        ensures
            res == (match *self {
                CitreaMessage::SequencerCommitment(m) => Some(&m),
                _ => None,
            }),
    {
        match self {
            CitreaMessage::SequencerCommitment(msg) => Some(msg),
            _ => None,
        }
    }

    /// Try to get this message as a BatchProofMessage
    pub fn as_batch_proof(&self) -> (res: Option<&BatchProofMessage>)
        ensures
            res == (match *self {
                CitreaMessage::BatchProof(m) => Some(&m),
                _ => None,
            }),
    {
        match self {
            CitreaMessage::BatchProof(msg) => Some(msg),
            _ => None,
        }
    }

    /// Try to get this message as a LightClientProofMessage
    pub fn as_light_client_proof(&self) -> (res: Option<&LightClientProofMessage>)
        ensures
            res == (match *self {
                CitreaMessage::LightClientProof(m) => Some(&m),
                _ => None,
            }),
    {
        match self {
            CitreaMessage::LightClientProof(msg) => Some(msg),
            _ => None,
        }
    }

    /// Try to get this message as an EVMTransactionMessage
    pub fn as_evm_transaction(&self) -> (res: Option<&EVMTransactionMessage>)
        ensures
            res == (match *self {
                CitreaMessage::EVMTransaction(m) => Some(&m),
                _ => None,
            }),
    {
        match self {
            CitreaMessage::EVMTransaction(msg) => Some(msg),
            _ => None,
        }
    }

    /// Verify the message based on its type
    pub fn verify(&self) -> (res: Result<(), P2PError>)
        ensures
            unit_result_view(res) == message_verdict(*self),
    {
        match self {
            CitreaMessage::L2Block(msg) => msg.verify(),
            CitreaMessage::BlockAnnouncement(_) => Ok(()),
            CitreaMessage::BlockRequest(_) => Ok(()),
            CitreaMessage::BlockRangeRequest(_) => Ok(()),
            CitreaMessage::BlockRangeResponse(_) => Ok(()),
            CitreaMessage::SequencerCommitment(msg) => msg.verify_signature(),
            CitreaMessage::BatchProof(msg) => msg.verify_signature(),
            CitreaMessage::LightClientProof(msg) => msg.verify(),
            CitreaMessage::EVMTransaction(msg) => {
                if !msg.verify_format() {
                    Err(P2PError::Verification(String::from_str("Invalid EVM transaction format")))
                } else {
                    Ok(())
                }
            },
            CitreaMessage::Custom(_) => Ok(()),
        }
    }
}

/// The main message envelope that covers all possible message types in the Citrea network.
///
/// It includes protocol versioning and metadata.
#[derive(Debug)]
pub struct MessageEnvelope {
    /// Protocol version for compatibility checking
    pub version: u16,
    /// The actual message payload
    pub payload: CitreaMessage,
    /// Optional sender identifier
    pub sender: Option<PeerId>,
    /// Chain ID to prevent cross-chain replay
    pub chain_id: u64,
    /// Timestamp when the message was created
    pub timestamp: u64,
}

impl MessageEnvelope {
    /// Create a new message envelope with the current protocol version,
    /// stamped with `timestamp` (seconds since the Unix epoch).
    pub fn new_at(payload: CitreaMessage, chain_id: u64, sender: Option<PeerId>, timestamp: u64) -> (res:
        Self)
        ensures
            res == (MessageEnvelope { version: PROTOCOL_VERSION, payload, sender, chain_id, timestamp }),
    {
        MessageEnvelope { version: PROTOCOL_VERSION, payload, sender, chain_id, timestamp }
    }

    /// Create a new message envelope with the current protocol version,
    /// stamped with the clock's reading.
    pub fn new(payload: CitreaMessage, chain_id: u64, sender: Option<PeerId>) -> (res: Self)
        ensures
            res.version == PROTOCOL_VERSION,
            res.payload == payload,
            res.sender == sender,
            res.chain_id == chain_id,
    {
        let timestamp = unix_now_secs();
        Self::new_at(payload, chain_id, sender, timestamp)
    }

    /// Check if this message is for the expected chain
    pub fn is_for_chain(&self, expected_chain_id: u64) -> (res: bool)
        ensures
            res == (self.chain_id == expected_chain_id),
    {
        self.chain_id == expected_chain_id
    }

    /// Check if this message version is compatible with our protocol: only
    /// our exact version is accepted.
    pub fn is_compatible(&self) -> (res: bool)
        ensures
            res == (self.version == PROTOCOL_VERSION),
    {
        self.version == PROTOCOL_VERSION
    }

    /// Accept a decoded envelope only when its version is compatible with ours.
    pub fn accept_decoded(self) -> (res: Result<MessageEnvelope, P2PError>)
        ensures
            self.version == PROTOCOL_VERSION ==> res == Ok::<MessageEnvelope, P2PError>(self),
            self.version != PROTOCOL_VERSION ==> (res matches Err(e) && e@
                == P2PErrorView::InvalidProtocolVersion(self.version as u32)),
    {
        if !self.is_compatible() {
            let version = self.version as u32;
            return Err(P2PError::InvalidProtocolVersion(version));
        }
        Ok(self)
    }
}

} // verus!

verus! {

/// Verifying a message checks what its kind calls for, and nothing else:
/// - an L2 block fails when its timestamp is zero, and otherwise when it is the
///   genesis block (number 0) with a parent hash that is not all zero;
/// - a sequencer commitment or a batch proof fails exactly when it carries a
///   signature whose recovery id is above 1;
/// - a light client proof fails exactly when its proof is empty;
/// - an EVM transaction fails exactly when its payload is empty or its first
///   byte does not fit its type (0x01 for EIP-2930, 0x02 for EIP-1559, an RLP
///   list prefix 0xc0..=0xf7 for legacy);
/// - announcements, requests, responses and custom messages always pass.
pub proof fn law_verification_by_kind(m: CitreaMessage)
    ensures
        m matches CitreaMessage::L2Block(b) ==> message_verdict(m) == if b.header.timestamp == 0 {
            Err::<(), P2PErrorView>(P2PErrorView::Verification("Block timestamp cannot be zero"@))
        } else if b.header.block_number == 0 && exists|i: int|
            0 <= i < 32 && #[trigger] b.header.parent_hash[i] != 0 {
            Err::<(), P2PErrorView>(P2PErrorView::Verification("Invalid parent hash for genesis block"@))
        } else {
            Ok::<(), P2PErrorView>(())
        },
        m matches CitreaMessage::SequencerCommitment(c) ==> message_verdict(m) == match c.signature {
            Some(sig) => if sig.v > 1 {
                Err::<(), P2PErrorView>(P2PErrorView::Verification("Invalid signature recovery ID"@))
            } else {
                Ok::<(), P2PErrorView>(())
            },
            None => Ok::<(), P2PErrorView>(()),
        },
        m matches CitreaMessage::BatchProof(p) ==> message_verdict(m) == match p.signature {
            Some(sig) => if sig.v > 1 {
                Err::<(), P2PErrorView>(P2PErrorView::Verification("Invalid signature recovery ID"@))
            } else {
                Ok::<(), P2PErrorView>(())
            },
            None => Ok::<(), P2PErrorView>(()),
        },
        m matches CitreaMessage::LightClientProof(p) ==> message_verdict(m) == if p.zk_proof@.len() == 0 {
            Err::<(), P2PErrorView>(P2PErrorView::Verification("Empty ZK proof"@))
        } else {
            Ok::<(), P2PErrorView>(())
        },
        m matches CitreaMessage::EVMTransaction(t) ==> (message_verdict(m) is Ok <==> (t.payload@.len() > 0
            && match t.tx_type {
            EVMTransactionType::Legacy => 0xc0 <= t.payload@[0] <= 0xf7,
            EVMTransactionType::AccessList => t.payload@[0] == 1,
            EVMTransactionType::FeeMarket => t.payload@[0] == 2,
        })),
        m matches CitreaMessage::EVMTransaction(_) ==> (message_verdict(m) is Err ==> message_verdict(m)
            == Err::<(), P2PErrorView>(P2PErrorView::Verification("Invalid EVM transaction format"@))),
        (m is BlockAnnouncement || m is BlockRequest || m is BlockRangeRequest || m is BlockRangeResponse
            || m is Custom) ==> message_verdict(m) == Ok::<(), P2PErrorView>(()),
{
}

} // verus!

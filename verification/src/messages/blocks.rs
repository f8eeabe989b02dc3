//! Block messages: L2 blocks, announcements, and requests and responses for blocks.
use vstd::prelude::*;

use super::VerifiableMessage;
use crate::error::{unit_result_view, P2PError, P2PErrorView};
use crate::types::{MerkleRoot, StateRoot};

verus! {

broadcast use vstd::array::group_array_axioms;

/// Header information for an L2 block.
///
/// The block header contains essential metadata about a block,
/// similar to headers in other blockchain systems.
#[derive(Debug, Clone, Copy)]
pub struct L2BlockHeader {
    /// Sequential block number
    pub block_number: u64,
    /// Unix timestamp when the block was created
    pub timestamp: u64,
    /// Hash of the parent block (creates the chain)
    pub parent_hash: [u8; 32],
    /// Root hash of the state tree after applying this block
    pub state_root: StateRoot,
}

impl L2BlockHeader {
    /// Create a new L2 block header
    pub fn new(block_number: u64, timestamp: u64, parent_hash: [u8; 32], state_root: StateRoot) -> (res:
        Self)
        ensures
            res == (L2BlockHeader { block_number, timestamp, parent_hash, state_root }),
    {
        L2BlockHeader { block_number, timestamp, parent_hash, state_root }
    }
}

/// Message containing L2 block data.
///
/// L2 blocks contain the transactions and state updates for the Citrea Layer 2
/// network. This message type is used to propagate new blocks through the network.
#[derive(Debug, Clone, Copy)]
pub struct L2BlockMessage {
    /// The block header containing metadata
    pub header: L2BlockHeader,
    /// Merkle root of all transactions in the block
    pub transactions_merkle_root: MerkleRoot,
}

impl L2BlockMessage {
    /// Create a new L2 block message
    pub fn new(header: L2BlockHeader, transactions_merkle_root: MerkleRoot) -> (res: Self)
        ensures
            res == (L2BlockMessage { header, transactions_merkle_root }),
    {
        L2BlockMessage { header, transactions_merkle_root }
    }
}

/// Whether all 32 bytes are zero.
pub open spec fn all_zero(bytes: [u8; 32]) -> bool {
    forall|i: int| 0 <= i < 32 ==> bytes[i] == 0
}

/// The outcome of checking an L2 block: its timestamp must not be zero, and
/// the genesis block (number 0) must have an all-zero parent hash.
pub open spec fn l2_block_verdict(b: L2BlockMessage) -> Result<(), P2PErrorView> {
    if b.header.timestamp == 0 {
        Err(P2PErrorView::Verification("Block timestamp cannot be zero"@))
    } else if b.header.block_number == 0 && !all_zero(b.header.parent_hash) {
        Err(P2PErrorView::Verification("Invalid parent hash for genesis block"@))
    } else {
        Ok(())
    }
}

/// Whether all 32 bytes are zero.
fn is_all_zero(bytes: &[u8; 32]) -> (res: bool)
    ensures
        res == all_zero(*bytes),
{
    let mut i: usize = 0;
    while i < 32
        invariant
            0 <= i <= 32,
            forall|j: int| 0 <= j < i ==> bytes[j] == 0,
        decreases 32 - i,
    {
        if bytes[i] != 0 {
            return false;
        }
        i = i + 1;
    }
    true
}

impl VerifiableMessage for L2BlockMessage {
    fn verify(&self) -> (res: Result<(), P2PError>)
        ensures
            unit_result_view(res) == l2_block_verdict(*self),
    {
        if self.header.timestamp == 0 {
            return Err(P2PError::Verification(String::from_str("Block timestamp cannot be zero")));
        }
        if self.header.block_number == 0 && !is_all_zero(&self.header.parent_hash) {
            return Err(
                P2PError::Verification(String::from_str("Invalid parent hash for genesis block")),
            );
        }
        Ok(())
    }
}

/// Lightweight notification that a block exists.
#[derive(Debug, Clone, Copy)]
pub struct BlockAnnouncementMessage {
    /// Number of the announced block
    pub block_number: u64,
    /// Hash of the announced block
    pub block_hash: [u8; 32],
}

/// Request for a single block.
#[derive(Debug, Clone, Copy)]
pub struct BlockRequestMessage {
    /// Number of the requested block
    pub block_number: u64,
}

/// Request for a range of blocks.
#[derive(Debug, Clone, Copy)]
pub struct BlockRangeRequestMessage {
    /// First block of the range
    pub start_block: u64,
    /// Last block of the range
    pub end_block: u64,
    /// Most blocks to send in one response
    pub max_blocks: u32,
    /// Whether to include the blocks' transactions
    pub include_transactions: bool,
    /// Identifier of the request, echoed by responses
    pub request_id: u64,
}

impl BlockRangeRequestMessage {
    /// Create a new block range request
    pub fn new(
        start_block: u64,
        end_block: u64,
        max_blocks: u32,
        include_transactions: bool,
        request_id: u64,
    ) -> (res: Self)
        ensures
            res == (BlockRangeRequestMessage {
                start_block,
                end_block,
                max_blocks,
                include_transactions,
                request_id,
            }),
    {
        BlockRangeRequestMessage { start_block, end_block, max_blocks, include_transactions, request_id }
    }
}

/// Response carrying some blocks of a requested range.
#[derive(Debug)]
pub struct BlockRangeResponseMessage {
    /// Identifier of the request answered
    pub request_id: u64,
    /// The blocks, in order
    pub blocks: Vec<L2BlockMessage>,
    /// Whether this is the last response for the request
    pub is_last: bool,
    /// The next block to ask for, if any
    pub next_block: Option<u64>,
}

/// Response carrying one block.
#[derive(Debug, Clone, Copy)]
pub struct BlockResponseMessage {
    /// The block
    pub block: L2BlockMessage,
    /// Identifier of the request answered, if any
    pub request_id: Option<u64>,
}

} // verus!

//! Building a block sync service with its pipeline and storage.
use vstd::prelude::*;

use super::pipeline::{initial_state, StandardBlockPipeline};
use super::service::{NetworkedBlockSyncService, PendingRequest};
use super::storage::{blocks_by_number, highest_block_number, InMemoryBlockStorage};
use crate::messages::blocks::L2BlockMessage;

verus! {

/// A builder for the block sync service
///
/// This follows the builder pattern to allow flexible configuration
/// with reasonable defaults: sync from block 0 to block 0 with empty
/// in-memory storage.
#[derive(Debug)]
pub struct BlockSyncServiceBuilder {
    /// The starting block number
    start_block: u64,
    /// The target block number
    target_block: u64,
    /// Whether to use in-memory storage
    use_memory_storage: bool,
    /// Optional pre-populated blocks for memory storage
    memory_blocks: Option<Vec<L2BlockMessage>>,
}

impl BlockSyncServiceBuilder {
    pub closed spec fn start(&self) -> u64 {
        self.start_block
    }

    pub closed spec fn target(&self) -> u64 {
        self.target_block
    }

    /// The blocks the storage starts with, if any were given.
    pub closed spec fn blocks(&self) -> Option<Seq<L2BlockMessage>> {
        match self.memory_blocks {
            Some(b) => Some(b@),
            None => None,
        }
    }

    /// Create a new builder with default values
    pub fn new() -> (res: Self)
        ensures
            res.start() == 0,
            res.target() == 0,
            res.blocks() is None,
    {
        BlockSyncServiceBuilder {
            start_block: 0,
            target_block: 0,
            use_memory_storage: true,
            memory_blocks: None,
        }
    }

    /// Set the starting block number
    pub fn with_start_block(self, start_block: u64) -> (res: Self)
        ensures
            res.start() == start_block,
            res.target() == self.target(),
            res.blocks() == self.blocks(),
    {
        BlockSyncServiceBuilder { start_block, ..self }
    }

    /// Set the target block number
    pub fn with_target_block(self, target_block: u64) -> (res: Self)
        ensures
            res.start() == self.start(),
            res.target() == target_block,
            res.blocks() == self.blocks(),
    {
        BlockSyncServiceBuilder { target_block, ..self }
    }

    /// Use in-memory storage
    pub fn with_memory_storage(self) -> (res: Self)
        ensures
            res.start() == self.start(),
            res.target() == self.target(),
            res.blocks() == self.blocks(),
    {
        BlockSyncServiceBuilder { use_memory_storage: true, ..self }
    }

    /// Use in-memory storage with pre-populated blocks
    pub fn with_memory_blocks(self, blocks: Vec<L2BlockMessage>) -> (res: Self)
        ensures
            res.start() == self.start(),
            res.target() == self.target(),
            res.blocks() == Some(blocks@),
    {
        BlockSyncServiceBuilder { use_memory_storage: true, memory_blocks: Some(blocks), ..self }
    }

    /// Create a standard pipeline with the configured options
    fn create_standard_pipeline(&self) -> (res: StandardBlockPipeline)
        ensures
            res.wf(),
            res.initial() == self.start(),
            res.state() == initial_state(self.start(), self.target()),
            res.store().stored() == match self.blocks() {
                Some(b) => blocks_by_number(b),
                None => Map::<u64, L2BlockMessage>::empty(),
            },
            res.store().latest() == match self.blocks() {
                Some(b) => highest_block_number(b),
                None => 0,
            },
    {
        let storage = match &self.memory_blocks {
            Some(blocks) => {
                let mut copy: Vec<L2BlockMessage> = Vec::new();
                let mut i: usize = 0;
                while i < blocks.len()
                    invariant
                        0 <= i <= blocks@.len(),
                        copy@ == blocks@.take(i as int),
                    decreases blocks@.len() - i,
                {
                    copy.push(blocks[i]);
                    assert(copy@ =~= blocks@.take(i as int + 1));
                    i = i + 1;
                }
                assert(blocks@.take(blocks@.len() as int) =~= blocks@);
                InMemoryBlockStorage::with_blocks(copy)
            },
            None => InMemoryBlockStorage::new(),
        };
        StandardBlockPipeline::new(storage, self.start_block, self.target_block)
    }

    /// Build the block sync service: not running, at the start block, aiming
    /// at the target block, with a fresh standard pipeline.
    pub fn build(self) -> (res: NetworkedBlockSyncService)
        ensures
            res.wf(),
            !res.running(),
            res.current() == self.start(),
            res.target() == self.target(),
            res.pending() == Seq::<PendingRequest>::empty(),
            res.next_id() == 1,
            res.pipeline().initial() == self.start(),
            res.pipeline().state() == initial_state(self.start(), self.target()),
            res.pipeline().store().stored() == match self.blocks() {
                Some(b) => blocks_by_number(b),
                None => Map::<u64, L2BlockMessage>::empty(),
            },
            res.pipeline().store().latest() == match self.blocks() {
                Some(b) => highest_block_number(b),
                None => 0,
            },
    {
        let pipeline = self.create_standard_pipeline();
        NetworkedBlockSyncService::new(pipeline, self.start_block, self.target_block)
    }
}

} // verus!

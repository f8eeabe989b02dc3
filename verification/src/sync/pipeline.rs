//! The block pipeline: blocks are validated, stored, and the sync state advanced.
use vstd::prelude::*;

use super::storage::InMemoryBlockStorage;
use super::types::PipelineState;
use crate::error::{unit_result_view, P2PError, P2PErrorView};
use crate::messages::blocks::L2BlockMessage;
use crate::text::decimal;

verus! {

/// The text of the error for a block numbered `got` that does not follow the
/// current one, when block `expected` was due.
pub open spec fn non_sequential_text(expected: nat, got: nat) -> Seq<char> {
    "Non-sequential block: expected "@ + decimal(expected) + ", got "@ + decimal(got)
}

/// The message "Non-sequential block: expected {expected}, got {got}", written by `format!`.
///
/// Claims what the documentation of `std::fmt` states of `{}` on unsigned
/// integers: each number is written in decimal, without sign or leading zeros.
#[verifier::external_body]
fn non_sequential_message(expected: u128, got: u64) -> (res: String)
    ensures
        res@ == non_sequential_text(expected as nat, got as nat),
{
    format!("Non-sequential block: expected {}, got {}", expected, got)
}

/// The pipeline state for syncing from `initial` to `target` before any block.
pub open spec fn initial_state(initial: u64, target: u64) -> PipelineState {
    PipelineState {
        current_block: initial,
        target_block: target,
        is_syncing: initial < target,
        blocks_processed: 0,
        blocks_remaining: if initial < target {
            (target - initial) as u64
        } else {
            0
        },
    }
}

/// Whether a block numbered `n` passes validation when the current block is
/// `current`: the genesis block always does, any other block must be the next one.
pub open spec fn block_follows(current: u64, n: u64) -> bool {
    n == 0 || n == current + 1
}

/// The outcome of validating a block numbered `n` against the state `s`.
pub open spec fn validation_verdict(s: PipelineState, n: u64) -> Result<(), P2PErrorView> {
    if block_follows(s.current_block, n) {
        Ok(())
    } else {
        Err(
            P2PErrorView::InvalidMessage(
                non_sequential_text((s.current_block + 1) as nat, n as nat),
            ),
        )
    }
}

/// The state after a block numbered `n` was stored: when it is the next
/// block, it becomes the current one, one more block counts as processed,
/// and the remaining count and syncing flag follow the target.
pub open spec fn advance(s: PipelineState, n: u64) -> PipelineState {
    if n == s.current_block + 1 {
        if n < s.target_block {
            PipelineState {
                current_block: n,
                blocks_processed: (s.blocks_processed + 1) as u64,
                blocks_remaining: (s.target_block - n) as u64,
                ..s
            }
        } else {
            PipelineState {
                current_block: n,
                blocks_processed: (s.blocks_processed + 1) as u64,
                blocks_remaining: 0,
                is_syncing: false,
                ..s
            }
        }
    } else {
        s
    }
}

/// A block processing pipeline implementation that validates and stores blocks
///
/// This pipeline:
/// 1. Validates block format and data integrity
/// 2. Checks if the block is part of the canonical chain
/// 3. Stores the block in its storage
/// 4. Updates state based on processed blocks
pub struct StandardBlockPipeline {
    /// The storage backend for blocks
    storage: InMemoryBlockStorage,
    /// The current processing state
    state: PipelineState,
    /// The block the pipeline started from
    initial_block: Ghost<u64>,
}

impl StandardBlockPipeline {
    /// The current processing state.
    pub closed spec fn state(&self) -> PipelineState {
        self.state
    }

    /// The storage the pipeline writes to.
    pub closed spec fn store(&self) -> InMemoryBlockStorage {
        self.storage
    }

    /// The block the pipeline started from.
    pub closed spec fn initial(&self) -> u64 {
        self.initial_block@
    }

    /// The current block is the initial one advanced by the number of blocks
    /// processed; the remaining count and syncing flag agree with the target.
    pub open spec fn wf(&self) -> bool {
        &&& self.store().wf()
        &&& self.state().current_block == self.initial() + self.state().blocks_processed
        &&& self.state().is_syncing == (self.state().current_block < self.state().target_block)
        &&& self.state().blocks_remaining == (if self.state().current_block
            < self.state().target_block {
            (self.state().target_block - self.state().current_block) as u64
        } else {
            0
        })
    }

    /// Create a new StandardBlockPipeline
    pub fn new(storage: InMemoryBlockStorage, initial_block: u64, target_block: u64) -> (res: Self)
        requires
            storage.wf(),
        ensures
            res.wf(),
            res.store() == storage,
            res.initial() == initial_block,
            res.state() == initial_state(initial_block, target_block),
    {
        let remaining = if initial_block < target_block {
            target_block - initial_block
        } else {
            0
        };
        let state = PipelineState {
            current_block: initial_block,
            target_block,
            is_syncing: initial_block < target_block,
            blocks_processed: 0,
            blocks_remaining: remaining,
        };
        StandardBlockPipeline { storage, state, initial_block: Ghost(initial_block) }
    }

    /// The storage the pipeline writes to.
    pub fn storage(&self) -> (res: &InMemoryBlockStorage)
        ensures
            *res == self.store(),
    {
        &self.storage
    }

    /// Validate a block
    fn validate_block(&self, block: &L2BlockMessage) -> (res: Result<(), P2PError>)
        ensures
            unit_result_view(res) == validation_verdict(self.state(), block.header.block_number),
    {
        let n = block.header.block_number;
        if n == 0 {
            return Ok(());
        }
        let current_block = self.state.current_block;
        if n - 1 != current_block {
            let expected = current_block as u128 + 1;
            return Err(P2PError::InvalidMessage(non_sequential_message(expected, n)));
        }
        Ok(())
    }

    /// Update the pipeline state after processing a block
    fn update_state_after_block(&mut self, block: &L2BlockMessage)
        requires
            old(self).wf(),
        ensures
            final(self).wf(),
            final(self).store() == old(self).store(),
            final(self).initial() == old(self).initial(),
            final(self).state() == advance(old(self).state(), block.header.block_number),
    {
        let n = block.header.block_number;
        if n > 0 && n - 1 == self.state.current_block {
            self.state.current_block = n;
            self.state.blocks_processed = self.state.blocks_processed + 1;
            if self.state.current_block < self.state.target_block {
                self.state.blocks_remaining = self.state.target_block - self.state.current_block;
            } else {
                self.state.blocks_remaining = 0;
                self.state.is_syncing = false;
            }
        }
    }

    /// Process a block: validate it, store it, then advance the state.
    /// A block that fails validation changes nothing.
    pub fn process_block(&mut self, block: L2BlockMessage) -> (res: Result<(), P2PError>)
        requires
            old(self).wf(),
        ensures
            final(self).wf(),
            final(self).initial() == old(self).initial(),
            unit_result_view(res) == validation_verdict(old(self).state(), block.header.block_number),
            res is Ok ==> {
                &&& final(self).store().stored() == old(self).store().stored().insert(
                    block.header.block_number,
                    block,
                )
                &&& final(self).store().latest() == (if block.header.block_number > old(self).store().latest() {
                    block.header.block_number
                } else {
                    old(self).store().latest()
                })
                &&& final(self).state() == advance(old(self).state(), block.header.block_number)
            },
            res is Err ==> *final(self) == *old(self),
    {
        self.validate_block(&block)?;
        let _ = self.storage.store_block(&block);
        self.update_state_after_block(&block);
        Ok(())
    }

    /// Get the current pipeline state
    pub fn get_state(&self) -> (res: Result<PipelineState, P2PError>)
        ensures
            res == Ok::<PipelineState, P2PError>(self.state()),
    {
        Ok(self.state)
    }
}

/// Blocks are taken in order: when the next block is accepted the current
/// block moves up by exactly one and one more block counts as processed; a
/// non-genesis block that is not the next one is refused.
pub proof fn law_blocks_advance_in_order(s: PipelineState, n: u64)
    requires
        s.blocks_processed < u64::MAX,
    ensures
        n == s.current_block + 1 ==> validation_verdict(s, n) is Ok && advance(s, n).current_block
            == s.current_block + 1 && advance(s, n).blocks_processed == s.blocks_processed + 1,
        n != 0 && n != s.current_block + 1 ==> validation_verdict(s, n) is Err && advance(s, n) == s,
{
}

/// The current block never moves back, and the count of processed blocks never drops.
pub proof fn law_current_block_never_decreases(s: PipelineState, n: u64)
    requires
        s.blocks_processed < u64::MAX,
    ensures
        advance(s, n).current_block >= s.current_block,
        advance(s, n).blocks_processed >= s.blocks_processed,
{
}

/// Syncing stops exactly when the target is reached: after the next block,
/// the pipeline is syncing if and only if the new current block is still
/// below the target, and the remaining count is the distance to the target.
pub proof fn law_syncing_until_target(s: PipelineState, n: u64)
    requires
        n == s.current_block + 1,
        s.blocks_processed < u64::MAX,
        s.is_syncing == (s.current_block < s.target_block),
    ensures
        advance(s, n).is_syncing == (n < s.target_block),
        advance(s, n).blocks_remaining == (if n < s.target_block {
            (s.target_block - n) as u64
        } else {
            0
        }),
{
}

/// A default block sync pipeline that does nothing
///
/// This is primarily used for testing or as a placeholder.
#[derive(Debug, Clone, Copy)]
pub struct DefaultBlockSyncPipeline;

impl DefaultBlockSyncPipeline {
    /// Take a block and do nothing with it.
    pub fn process_block(&self, block: L2BlockMessage) -> (res: Result<(), P2PError>)
        ensures
            res is Ok,
    {
        Ok(())
    }

    /// The state of an idle pipeline: everything at zero, not syncing.
    pub fn get_state(&self) -> (res: Result<PipelineState, P2PError>)
        ensures
            res == Ok::<PipelineState, P2PError>(
                PipelineState {
                    current_block: 0,
                    target_block: 0,
                    is_syncing: false,
                    blocks_processed: 0,
                    blocks_remaining: 0,
                },
            ),
    {
        Ok(
            PipelineState {
                current_block: 0,
                target_block: 0,
                is_syncing: false,
                blocks_processed: 0,
                blocks_remaining: 0,
            },
        )
    }
}

} // verus!

verus! {

/// The genesis block (number 0) always passes validation, whatever the
/// current block; any other block that is not the next one is refused with an
/// invalid-message error that names the expected and the received numbers,
/// in decimal.
pub proof fn law_validation_outcomes(s: PipelineState, n: u64)
    ensures
        validation_verdict(s, 0) == Ok::<(), P2PErrorView>(()),
        n != 0 && n != s.current_block + 1 ==> validation_verdict(s, n) == Err::<(), P2PErrorView>(
            P2PErrorView::InvalidMessage(
                "Non-sequential block: expected "@ + decimal((s.current_block + 1) as nat) + ", got "@
                    + decimal(n as nat),
            ),
        ),
{
}

} // verus!

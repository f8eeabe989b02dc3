//! Block storage kept in memory.
use std::collections::HashMap;
use vstd::prelude::*;

use crate::error::P2PError;
use crate::messages::blocks::L2BlockMessage;
use crate::types::StateRoot;

verus! {

broadcast use vstd::std_specs::hash::group_hash_axioms;

/// The blocks of a list keyed by number; a later block replaces an earlier one with its number.
pub open spec fn blocks_by_number(blocks: Seq<L2BlockMessage>) -> Map<u64, L2BlockMessage>
    decreases blocks.len(),
{
    if blocks.len() == 0 {
        Map::empty()
    } else {
        blocks_by_number(blocks.drop_last()).insert(blocks.last().header.block_number, blocks.last())
    }
}

/// The highest block number of a list, or 0 for an empty list.
pub open spec fn highest_block_number(blocks: Seq<L2BlockMessage>) -> u64
    decreases blocks.len(),
{
    if blocks.len() == 0 {
        0
    } else {
        let before = highest_block_number(blocks.drop_last());
        if blocks.last().header.block_number > before {
            blocks.last().header.block_number
        } else {
            before
        }
    }
}

/// The all-zero state root, reported when no block is stored.
pub open spec fn zero_state_root() -> StateRoot {
    StateRoot(vstd::array::spec_array_fill_for_copy_type::<u8, 32>(0u8))
}

/// In-memory block storage implementation
///
/// This is a simple implementation that stores blocks in memory.
/// Useful for testing and development, but not suitable for production
/// as it doesn't persist data across restarts.
#[derive(Debug)]
pub struct InMemoryBlockStorage {
    /// Blocks stored by block number
    blocks: HashMap<u64, L2BlockMessage>,
    /// The latest block number
    latest_block: u64,
}

impl InMemoryBlockStorage {
    /// The stored blocks, by number.
    pub closed spec fn stored(&self) -> Map<u64, L2BlockMessage> {
        self.blocks@
    }

    /// The latest block number.
    pub closed spec fn latest(&self) -> u64 {
        self.latest_block
    }

    /// Each stored block is under its own number; the latest block number is
    /// the highest stored one, or 0 when that number is not stored.
    pub open spec fn wf(&self) -> bool {
        &&& forall|n: u64| #[trigger]
            self.stored().contains_key(n) ==> self.stored()[n].header.block_number == n
        &&& forall|n: u64| #[trigger] self.stored().contains_key(n) ==> n <= self.latest()
        &&& (self.latest() == 0 || self.stored().contains_key(self.latest()))
    }

    /// Create a new in-memory block storage
    pub fn new() -> (res: Self)
        ensures
            res.wf(),
            res.stored() == Map::<u64, L2BlockMessage>::empty(),
            res.latest() == 0,
    {
        InMemoryBlockStorage { blocks: HashMap::new(), latest_block: 0 }
    }

    /// Create a new in-memory storage with pre-populated blocks
    pub fn with_blocks(blocks: Vec<L2BlockMessage>) -> (res: Self)
        ensures
            res.wf(),
            res.stored() == blocks_by_number(blocks@),
            res.latest() == highest_block_number(blocks@),
    {
        let mut res = InMemoryBlockStorage::new();
        let mut i: usize = 0;
        while i < blocks.len()
            invariant
                0 <= i <= blocks@.len(),
                res.wf(),
                res.stored() == blocks_by_number(blocks@.take(i as int)),
                res.latest() == highest_block_number(blocks@.take(i as int)),
            decreases blocks@.len() - i,
        {
            assert(blocks@.take(i as int + 1).drop_last() =~= blocks@.take(i as int));
            assert(blocks@.take(i as int + 1).last() == blocks@[i as int]);
            let block = blocks[i];
            res.insert_block(block);
            i = i + 1;
        }
        assert(blocks@.take(blocks@.len() as int) =~= blocks@);
        res
    }

    /// Store a block under its number and raise the latest block number to it if higher.
    fn insert_block(&mut self, block: L2BlockMessage)
        requires
            old(self).wf(),
        ensures
            final(self).wf(),
            final(self).stored() == old(self).stored().insert(block.header.block_number, block),
            final(self).latest() == (if block.header.block_number > old(self).latest() {
                block.header.block_number
            } else {
                old(self).latest()
            }),
    {
        let block_number = block.header.block_number;
        self.blocks.insert(block_number, block);
        if block_number > self.latest_block {
            self.latest_block = block_number;
        }
        assert forall|n: u64| #[trigger] self.stored().contains_key(n) implies n <= self.latest()
            && self.stored()[n].header.block_number == n by {
            if n != block_number {
                assert(old(self).stored().contains_key(n));
            }
        }
    }

    /// Store a block; a block already stored under its number is replaced.
    pub fn store_block(&mut self, block: &L2BlockMessage) -> (res: Result<(), P2PError>)
        requires
            old(self).wf(),
        ensures
            final(self).wf(),
            res is Ok,
            final(self).stored() == old(self).stored().insert(block.header.block_number, *block),
            final(self).latest() == (if block.header.block_number > old(self).latest() {
                block.header.block_number
            } else {
                old(self).latest()
            }),
    {
        self.insert_block(*block);
        Ok(())
    }

    /// Retrieve a block by number
    pub fn get_block(&self, block_number: u64) -> (res: Result<Option<L2BlockMessage>, P2PError>)
        ensures
            res == Ok::<Option<L2BlockMessage>, P2PError>(
                if self.stored().contains_key(block_number) {
                    Some(self.stored()[block_number])
                } else {
                    None
                },
            ),
    {
        match self.blocks.get(&block_number) {
            Some(b) => Ok(Some(*b)),
            None => Ok(None),
        }
    }

    /// Get the latest block number
    pub fn get_latest_block_number(&self) -> (res: Result<u64, P2PError>)
        ensures
            res == Ok::<u64, P2PError>(self.latest()),
    {
        Ok(self.latest_block)
    }

    /// Get the state root for a specific block
    pub fn get_state_root(&self, block_number: u64) -> (res: Result<Option<StateRoot>, P2PError>)
        ensures
            res == Ok::<Option<StateRoot>, P2PError>(
                if self.stored().contains_key(block_number) {
                    Some(self.stored()[block_number].header.state_root)
                } else {
                    None
                },
            ),
    {
        match self.blocks.get(&block_number) {
            Some(b) => Ok(Some(b.header.state_root)),
            None => Ok(None),
        }
    }

    /// Get the latest state root: that of the latest block, or the all-zero
    /// root when no block is stored under the latest number.
    pub fn get_latest_state_root(&self) -> (res: Result<StateRoot, P2PError>)
        ensures
            res == Ok::<StateRoot, P2PError>(
                if self.stored().contains_key(self.latest()) {
                    self.stored()[self.latest()].header.state_root
                } else {
                    zero_state_root()
                },
            ),
    {
        match self.blocks.get(&self.latest_block) {
            Some(b) => Ok(b.header.state_root),
            None => Ok(StateRoot::new([0u8; 32])),
        }
    }
}

impl Default for InMemoryBlockStorage {
    fn default() -> (res: Self)
        ensures
            res.wf(),
            res.stored() == Map::<u64, L2BlockMessage>::empty(),
            res.latest() == 0,
    {
        Self::new()
    }
}

/// Factory for creating block storage instances
#[derive(Debug)]
pub struct BlockStorageFactory;

impl BlockStorageFactory {
    /// Create a new, empty block storage
    pub fn create_memory_storage() -> (res: InMemoryBlockStorage)
        ensures
            res.wf(),
            res.stored() == Map::<u64, L2BlockMessage>::empty(),
            res.latest() == 0,
    {
        InMemoryBlockStorage::new()
    }

    /// Create a new block storage with pre-populated blocks
    pub fn create_memory_storage_with_blocks(blocks: Vec<L2BlockMessage>) -> (res: InMemoryBlockStorage)
        ensures
            res.wf(),
            res.stored() == blocks_by_number(blocks@),
            res.latest() == highest_block_number(blocks@),
    {
        InMemoryBlockStorage::with_blocks(blocks)
    }
}

/// A block is read back as it was stored, under its number; every other
/// number reads as before. `after` is `before` once `store_block` has stored
/// `block`, as its contract states; `get_block` reads `stored()`.
pub proof fn law_read_after_store(
    before: InMemoryBlockStorage,
    after: InMemoryBlockStorage,
    block: L2BlockMessage,
    n: u64,
)
    requires
        after.stored() == before.stored().insert(block.header.block_number, block),
    ensures
        after.stored().contains_key(block.header.block_number),
        after.stored()[block.header.block_number] == block,
        n != block.header.block_number ==> after.stored().contains_key(n) == before.stored().contains_key(
            n,
        ),
        n != block.header.block_number && before.stored().contains_key(n) ==> after.stored()[n]
            == before.stored()[n],
{
}

/// The latest block number of a storage is the highest stored block number
/// (0 when nothing is stored): no stored block is beyond it, and unless it is
/// 0 a block is stored under it.
pub proof fn law_latest_is_highest(storage: InMemoryBlockStorage)
    requires
        storage.wf(),
    ensures
        forall|n: u64| #[trigger] storage.stored().contains_key(n) ==> n <= storage.latest(),
        storage.latest() != 0 ==> storage.stored().contains_key(storage.latest()),
{
}

} // verus!

verus! {

/// A storage made from a list of blocks holds, under each block's number, the
/// last block in the list with that number, and holds nothing under a number
/// no listed block has.
pub proof fn law_blocks_by_number_keeps_last(blocks: Seq<L2BlockMessage>)
    ensures
        forall|j: int|
            0 <= j < blocks.len() ==> blocks_by_number(blocks).contains_key(
                (#[trigger] blocks[j]).header.block_number,
            ),
        forall|n: u64| #[trigger]
            blocks_by_number(blocks).contains_key(n) ==> exists|j: int|
                0 <= j < blocks.len() && (#[trigger] blocks[j]).header.block_number == n
                    && blocks_by_number(blocks)[n] == blocks[j] && forall|l: int|
                    j < l < blocks.len() ==> (#[trigger] blocks[l]).header.block_number != n,
    decreases blocks.len(),
{
    if blocks.len() > 0 {
        let d = blocks.drop_last();
        let last = blocks.last();
        let m = blocks_by_number(blocks);
        let md = blocks_by_number(d);
        law_blocks_by_number_keeps_last(d);
        assert forall|j: int| 0 <= j < blocks.len() implies m.contains_key(
            (#[trigger] blocks[j]).header.block_number,
        ) by {
            if j < d.len() {
                assert(d[j] == blocks[j]);
                assert(md.contains_key(d[j].header.block_number));
            }
        }
        assert forall|n: u64| #[trigger] m.contains_key(n) implies exists|j: int|
            0 <= j < blocks.len() && (#[trigger] blocks[j]).header.block_number == n && m[n] == blocks[j]
                && forall|l: int| j < l < blocks.len() ==> (#[trigger] blocks[l]).header.block_number != n by {
            if n == last.header.block_number {
                let j = blocks.len() - 1;
                assert(blocks[j] == last);
            } else {
                assert(md.contains_key(n));
                let j = choose|j: int|
                    0 <= j < d.len() && (#[trigger] d[j]).header.block_number == n && md[n] == d[j]
                        && forall|l: int| j < l < d.len() ==> (#[trigger] d[l]).header.block_number != n;
                assert(blocks[j] == d[j]);
                assert forall|l: int| j < l < blocks.len() implies (#[trigger] blocks[l]).header.block_number
                    != n by {
                    if l < d.len() {
                        assert(blocks[l] == d[l]);
                    }
                }
            }
        }
    }
}

/// The latest number of a storage made from a list of blocks is the highest
/// block number in the list: no listed block is beyond it, and a listed block
/// has it (it is 0 for an empty list).
pub proof fn law_highest_block_number(blocks: Seq<L2BlockMessage>)
    ensures
        forall|j: int| 0 <= j < blocks.len() ==> (#[trigger] blocks[j]).header.block_number <= highest_block_number(
            blocks,
        ),
        blocks.len() == 0 ==> highest_block_number(blocks) == 0,
        blocks.len() > 0 ==> exists|j: int|
            0 <= j < blocks.len() && (#[trigger] blocks[j]).header.block_number == highest_block_number(blocks),
    decreases blocks.len(),
{
    if blocks.len() > 0 {
        let d = blocks.drop_last();
        law_highest_block_number(d);
        assert forall|j: int| 0 <= j < blocks.len() implies (#[trigger] blocks[j]).header.block_number
            <= highest_block_number(blocks) by {
            if j < d.len() {
                assert(d[j] == blocks[j]);
            }
        }
        if blocks.last().header.block_number > highest_block_number(d) || d.len() == 0 {
            assert(blocks[blocks.len() - 1] == blocks.last());
        } else {
            let j = choose|j: int|
                0 <= j < d.len() && (#[trigger] d[j]).header.block_number == highest_block_number(d);
            assert(blocks[j] == d[j]);
        }
    }
}

} // verus!

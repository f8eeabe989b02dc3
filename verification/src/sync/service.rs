//! The block sync service: which block ranges to ask peers for, what to do
//! with the blocks that come back, and when to ask again.
//!
//! Asking peers and receiving their answers happen outside; each step here
//! takes what was received (the connected peers, a response, the time) and
//! returns what to send.
use vstd::prelude::*;

use super::pipeline::{advance, validation_verdict, StandardBlockPipeline};
use super::types::PipelineState;
use crate::error::{unit_result_view, P2PError, P2PErrorView};
use crate::messages::blocks::{
    BlockRangeRequestMessage, BlockRangeResponseMessage, BlockResponseMessage, L2BlockMessage,
};
use crate::types::{PeerId, StateRoot};

verus! {

/// Maximum number of blocks to request in a single range request
pub const MAX_BLOCKS_PER_REQUEST: u32 = 50;

/// Maximum number of parallel block range requests
pub const MAX_PARALLEL_REQUESTS: usize = 3;

/// Timeout for block requests (in seconds)
pub const REQUEST_TIMEOUT_SECONDS: u64 = 30;

/// Number of retries after which a request is given up
pub const MAX_RETRIES: u32 = 3;

/// Information about a pending block request
#[derive(Debug, Clone, Copy)]
pub struct PendingRequest {
    /// The start block number
    pub start_block: u64,
    /// The end block number
    pub end_block: u64,
    /// The request ID
    pub request_id: u64,
    /// When the request was sent, in nanoseconds on a monotonic clock
    pub sent_at: u64,
    /// How many times we've retried this request
    pub retry_count: u32,
}

/// The last block of a request starting at `start` for blocks up to `end`:
/// at most `MAX_BLOCKS_PER_REQUEST` blocks are asked for at once.
pub open spec fn request_end(start: u64, end: u64) -> u64 {
    if end - start >= MAX_BLOCKS_PER_REQUEST {
        (start + MAX_BLOCKS_PER_REQUEST - 1) as u64
    } else {
        end
    }
}

/// The last block of the next request from `next` towards `target`.
pub open spec fn follow_up_end(next: u64, target: u64) -> u64 {
    if target - next >= MAX_BLOCKS_PER_REQUEST - 1 {
        (next + MAX_BLOCKS_PER_REQUEST - 1) as u64
    } else {
        target
    }
}

/// The request sent for the range `start..=end` under `id`.
pub open spec fn range_request(start: u64, end: u64, id: u64) -> BlockRangeRequestMessage {
    BlockRangeRequestMessage {
        start_block: start,
        end_block: end,
        max_blocks: MAX_BLOCKS_PER_REQUEST,
        include_transactions: true,
        request_id: id,
    }
}

/// Whether a pending request with this id is held.
pub open spec fn has_request(pending: Seq<PendingRequest>, id: u64) -> bool {
    exists|i: int| 0 <= i < pending.len() && #[trigger] pending[i].request_id == id
}

/// The position of the pending request with this id (meaningful when one is held).
pub open spec fn request_index(pending: Seq<PendingRequest>, id: u64) -> int {
    choose|i: int| 0 <= i < pending.len() && #[trigger] pending[i].request_id == id
}

/// The pending requests without the one with this id.
pub open spec fn without_request(pending: Seq<PendingRequest>, id: u64) -> Seq<PendingRequest> {
    if has_request(pending, id) {
        pending.remove(request_index(pending, id))
    } else {
        pending
    }
}

/// Nanoseconds in a second.
pub const NANOS_PER_SECOND: u64 = 1_000_000_000;

/// Whether a request sent at `sent_at` has timed out at `now` (both in
/// nanoseconds on a monotonic clock): the whole seconds elapsed since it was
/// sent exceed `REQUEST_TIMEOUT_SECONDS`. A reading before `sent_at` counts as
/// no time elapsed.
pub open spec fn request_timed_out(sent_at: u64, now: u64) -> bool {
    now >= sent_at && (now - sent_at) / (NANOS_PER_SECOND as int) > REQUEST_TIMEOUT_SECONDS
}

/// The ids of the requests that have timed out at `now`, in order.
pub open spec fn timed_out_ids(pending: Seq<PendingRequest>, now: u64) -> Seq<u64>
    decreases pending.len(),
{
    if pending.len() == 0 {
        Seq::empty()
    } else {
        let rest = timed_out_ids(pending.drop_last(), now);
        if request_timed_out(pending.last().sent_at, now) {
            rest.push(pending.last().request_id)
        } else {
            rest
        }
    }
}

/// The range to request next, if syncing is behind its target and fewer than
/// `MAX_PARALLEL_REQUESTS` requests are pending.
pub open spec fn spec_sync_plan(current: u64, target: u64, pending: nat) -> Option<(u64, u64)> {
    if current < target && pending < MAX_PARALLEL_REQUESTS {
        Some(((current + 1) as u64, follow_up_end((current + 1) as u64, target)))
    } else {
        None
    }
}

/// How far syncing has got: the pipeline's state, the blocks its storage
/// holds by number and the latest stored number, and the service's current block.
pub struct SyncProgress {
    pub state: PipelineState,
    pub stored: Map<u64, L2BlockMessage>,
    pub latest: u64,
    pub current: u64,
}

/// Processing one received block: when it passes validation it is stored and
/// advances the state, and it becomes the current block when it is the next
/// one; a block that fails validation changes nothing.
pub open spec fn process_one(p: SyncProgress, block: L2BlockMessage) -> SyncProgress {
    let n = block.header.block_number;
    if validation_verdict(p.state, n) is Ok {
        SyncProgress {
            state: advance(p.state, n),
            stored: p.stored.insert(n, block),
            latest: if n > p.latest {
                n
            } else {
                p.latest
            },
            current: if n == p.current + 1 {
                n
            } else {
                p.current
            },
        }
    } else {
        p
    }
}

/// Processing received blocks one after another, in order.
pub open spec fn process_blocks(p: SyncProgress, blocks: Seq<L2BlockMessage>) -> SyncProgress
    decreases blocks.len(),
{
    if blocks.len() == 0 {
        p
    } else {
        process_one(process_blocks(p, blocks.drop_last()), blocks.last())
    }
}

/// A request never asks for more than `MAX_BLOCKS_PER_REQUEST` blocks and
/// never beyond the requested end, and asks for as many as it may: the whole
/// range when it holds at most that many blocks, else exactly that many.
pub proof fn law_request_size_bounded(start: u64, end: u64)
    requires
        start <= end,
    ensures
        start <= request_end(start, end) <= end,
        request_end(start, end) - start < MAX_BLOCKS_PER_REQUEST,
        end - start < MAX_BLOCKS_PER_REQUEST ==> request_end(start, end) == end,
        end - start >= MAX_BLOCKS_PER_REQUEST ==> request_end(start, end) - start + 1
            == MAX_BLOCKS_PER_REQUEST,
{
}

/// The next range asked for never goes past the target and holds at most
/// `MAX_BLOCKS_PER_REQUEST` blocks: it reaches the target when that is near
/// enough, else it holds exactly that many blocks.
pub proof fn law_follow_up_within_target(next: u64, target: u64)
    requires
        next <= target,
    ensures
        next <= follow_up_end(next, target) <= target,
        follow_up_end(next, target) - next < MAX_BLOCKS_PER_REQUEST,
        target - next < MAX_BLOCKS_PER_REQUEST ==> follow_up_end(next, target) == target,
        target - next >= MAX_BLOCKS_PER_REQUEST ==> follow_up_end(next, target) - next + 1
            == MAX_BLOCKS_PER_REQUEST,
{
}

/// Syncing asks for blocks only while behind the target and with fewer than
/// `MAX_PARALLEL_REQUESTS` requests pending, starting right after the current block.
pub proof fn law_sync_plan(current: u64, target: u64, pending: nat)
    ensures
        spec_sync_plan(current, target, pending) is Some <==> (current < target && pending
            < MAX_PARALLEL_REQUESTS),
        spec_sync_plan(current, target, pending) matches Some(r) ==> r.0 == current + 1 && r.1
            <= target && r.1 - r.0 < MAX_BLOCKS_PER_REQUEST && (r.1 == target || r.1 - r.0 + 1
            == MAX_BLOCKS_PER_REQUEST),
{
}

/// An implementation of the block sync service over the p2p network
///
/// This service synchronizes blocks from the network by:
/// 1. Requesting block data from connected peers
/// 2. Processing blocks through the pipeline
/// 3. Updating local state based on received blocks
pub struct NetworkedBlockSyncService {
    /// The block processing pipeline
    pipeline: StandardBlockPipeline,
    /// The service running state
    running: bool,
    /// The current local block number
    current_block: u64,
    /// The target block number to sync to
    target_block: u64,
    /// Pending block range requests; no two share an id. They are kept in a
    /// `Vec`, in the order they were made, so that the timed-out ids come out
    /// oldest first and every result is determined; the iteration order of a
    /// `HashMap` is not.
    pending_requests: Vec<PendingRequest>,
    /// Next request ID
    next_request_id: u64,
}

impl NetworkedBlockSyncService {
    pub closed spec fn pipeline(&self) -> StandardBlockPipeline {
        self.pipeline
    }

    pub closed spec fn running(&self) -> bool {
        self.running
    }

    pub closed spec fn current(&self) -> u64 {
        self.current_block
    }

    pub closed spec fn target(&self) -> u64 {
        self.target_block
    }

    pub closed spec fn pending(&self) -> Seq<PendingRequest> {
        self.pending_requests@
    }

    pub closed spec fn next_id(&self) -> u64 {
        self.next_request_id
    }

    /// How far syncing has got.
    pub open spec fn progress(&self) -> SyncProgress {
        SyncProgress {
            state: self.pipeline().state(),
            stored: self.pipeline().store().stored(),
            latest: self.pipeline().store().latest(),
            current: self.current(),
        }
    }

    /// The pipeline is well formed, and every pending request has its own id,
    /// below the next id to hand out, and has been retried at most
    /// `MAX_RETRIES` times.
    pub open spec fn wf(&self) -> bool {
        &&& self.pipeline().wf()
        &&& forall|i: int, j: int|
            0 <= i < self.pending().len() && 0 <= j < self.pending().len() && i != j
                ==> #[trigger] self.pending()[i].request_id != #[trigger] self.pending()[j].request_id
        &&& forall|i: int|
            0 <= i < self.pending().len() ==> #[trigger] self.pending()[i].request_id < self.next_id()
        &&& forall|i: int|
            0 <= i < self.pending().len() ==> #[trigger] self.pending()[i].retry_count <= MAX_RETRIES
    }

    /// Create a new service syncing from `start_block` to `target_block`
    /// through `pipeline`; it is not running and has nothing pending.
    pub fn new(pipeline: StandardBlockPipeline, start_block: u64, target_block: u64) -> (res: Self)
        requires
            pipeline.wf(),
        ensures
            res.wf(),
            res.pipeline() == pipeline,
            !res.running(),
            res.current() == start_block,
            res.target() == target_block,
            res.pending() == Seq::<PendingRequest>::empty(),
            res.next_id() == 1,
    {
        let res = NetworkedBlockSyncService {
            pipeline,
            running: false,
            current_block: start_block,
            target_block,
            pending_requests: Vec::new(),
            next_request_id: 1,
        };
        assert(res.pending() =~= Seq::<PendingRequest>::empty());
        res
    }

    /// The pending requests, oldest first.
    pub fn pending_requests(&self) -> (res: &Vec<PendingRequest>)
        ensures
            res@ == self.pending(),
    {
        &self.pending_requests
    }

    /// The pipeline that processes the received blocks.
    pub fn block_pipeline(&self) -> (res: &StandardBlockPipeline)
        ensures
            *res == self.pipeline(),
    {
        &self.pipeline
    }

    /// Whether the service is running.
    pub fn is_running(&self) -> (res: bool)
        ensures
            res == self.running(),
    {
        self.running
    }

    /// The id the next request will be sent under.
    pub fn next_request_id(&self) -> (res: u64)
        ensures
            res == self.next_id(),
    {
        self.next_request_id
    }

    /// Get the next request ID
    fn get_next_request_id(&mut self) -> (res: u64)
        requires
            old(self).next_id() < u64::MAX,
        ensures
            res == old(self).next_id(),
            final(self).next_id() == old(self).next_id() + 1,
            final(self).pipeline() == old(self).pipeline(),
            final(self).running() == old(self).running(),
            final(self).current() == old(self).current(),
            final(self).target() == old(self).target(),
            final(self).pending() == old(self).pending(),
    {
        let current = self.next_request_id;
        self.next_request_id = current + 1;
        current
    }

    /// Plan a request for blocks `start..=end` at time `now` (nanoseconds on a
    /// monotonic clock), to the first of the connected `peers`: at most
    /// `MAX_BLOCKS_PER_REQUEST` blocks are asked for, the request is recorded as
    /// pending under a fresh id, and the peer and the request to send it are
    /// returned.
    pub fn request_blocks_from_peers(&mut self, peers: &Vec<PeerId>, start: u64, end: u64, now: u64) -> (res:
        Result<(PeerId, BlockRangeRequestMessage), P2PError>)
        requires
            old(self).wf(),
            old(self).next_id() < u64::MAX,
        ensures
            final(self).wf(),
            final(self).pipeline() == old(self).pipeline(),
            final(self).running() == old(self).running(),
            final(self).current() == old(self).current(),
            final(self).target() == old(self).target(),
            peers@.len() == 0 ==> {
                &&& res matches Err(e) && e@ == P2PErrorView::ProtocolError("No peers connected"@)
                &&& final(self).pending() == old(self).pending()
                &&& final(self).next_id() == old(self).next_id()
            },
            peers@.len() > 0 ==> {
                let id = old(self).next_id();
                let last = request_end(start, end);
                &&& res == Ok::<(PeerId, BlockRangeRequestMessage), P2PError>(
                    (peers@[0], range_request(start, last, id)),
                )
                &&& final(self).pending() == old(self).pending().push(
                    PendingRequest {
                        start_block: start,
                        end_block: last,
                        request_id: id,
                        sent_at: now,
                        retry_count: 0,
                    },
                )
                &&& final(self).next_id() == id + 1
            },
    {
        if peers.len() == 0 {
            return Err(P2PError::ProtocolError(String::from_str("No peers connected")));
        }
        let peer_id = peers[0];
        let request_id = self.get_next_request_id();
        let actual_end = if end >= start && end - start >= 50 {
            start + 49
        } else {
            end
        };
        let request = BlockRangeRequestMessage::new(start, actual_end, MAX_BLOCKS_PER_REQUEST, true, request_id);
        let ghost before = self.pending();
        self.pending_requests.push(
            PendingRequest {
                start_block: start,
                end_block: actual_end,
                request_id,
                sent_at: now,
                retry_count: 0,
            },
        );
        assert(self.pending() =~= before.push(self.pending()[before.len() as int]));
        Ok((peer_id, request))
    }

    /// Position of the pending request with this id, if there is one.
    fn find_request(&self, request_id: u64) -> (res: Option<usize>)
        requires
            self.wf(),
        ensures
            match res {
                Some(i) => {
                    &&& i < self.pending().len()
                    &&& has_request(self.pending(), request_id)
                    &&& request_index(self.pending(), request_id) == i
                },
                None => !has_request(self.pending(), request_id),
            },
    {
        let mut i: usize = 0;
        while i < self.pending_requests.len()
            invariant
                0 <= i <= self.pending().len(),
                self.wf(),
                forall|j: int| 0 <= j < i ==> self.pending()[j].request_id != request_id,
            decreases self.pending().len() - i,
        {
            if self.pending_requests[i].request_id == request_id {
                proof {
                    let k = request_index(self.pending(), request_id);
                    assert(self.pending()[i as int].request_id == request_id);
                    assert(0 <= k < self.pending().len() && self.pending()[k].request_id == request_id);
                }
                return Some(i);
            }
            i = i + 1;
        }
        None
    }

    /// Remove the pending request with this id, returning it.
    fn take_request(&mut self, request_id: u64) -> (res: Option<PendingRequest>)
        requires
            old(self).wf(),
        ensures
            final(self).wf(),
            final(self).pending() == without_request(old(self).pending(), request_id),
            res == (if has_request(old(self).pending(), request_id) {
                Some(old(self).pending()[request_index(old(self).pending(), request_id)])
            } else {
                None
            }),
            final(self).pipeline() == old(self).pipeline(),
            final(self).running() == old(self).running(),
            final(self).current() == old(self).current(),
            final(self).target() == old(self).target(),
            final(self).next_id() == old(self).next_id(),
    {
        match self.find_request(request_id) {
            Some(i) => {
                let ghost before = self.pending();
                let r = self.pending_requests.remove(i);
                proof {
                    let after = self.pending();
                    assert(after =~= before.remove(i as int));
                    assert forall|a: int, b: int|
                        0 <= a < after.len() && 0 <= b < after.len() && a != b implies #[trigger] after[a].request_id
                            != #[trigger] after[b].request_id by {
                        let a0 = if a < i { a } else { a + 1 };
                        let b0 = if b < i { b } else { b + 1 };
                        assert(after[a] == before[a0]);
                        assert(after[b] == before[b0]);
                    }
                    assert forall|a: int| 0 <= a < after.len() implies #[trigger] after[a].request_id
                        < self.next_id() by {
                        let a0 = if a < i { a } else { a + 1 };
                        assert(after[a] == before[a0]);
                    }
                }
                Some(r)
            },
            None => None,
        }
    }

    /// Process a received block through the pipeline; when it succeeds and the
    /// block is the next one, it becomes the current block.
    pub fn process_received_block(&mut self, block: L2BlockMessage) -> (res: Result<(), P2PError>)
        requires
            old(self).wf(),
        ensures
            final(self).wf(),
            unit_result_view(res) == validation_verdict(
                old(self).pipeline().state(),
                block.header.block_number,
            ),
            final(self).progress() == process_one(old(self).progress(), block),
            res is Err ==> final(self).pipeline() == old(self).pipeline(),
            old(self).current() == old(self).pipeline().state().current_block ==> final(self).current() == final(self).pipeline().state().current_block,
            final(self).running() == old(self).running(),
            final(self).target() == old(self).target(),
            final(self).pending() == old(self).pending(),
            final(self).next_id() == old(self).next_id(),
    {
        let block_number = block.header.block_number;
        let ghost before = self.pending();
        let r = self.pipeline.process_block(block);
        assert(self.pending() == before);
        match r {
            Ok(()) => {
                if block_number > 0 && block_number - 1 == self.current_block {
                    self.current_block = block_number;
                }
                Ok(())
            },
            Err(e) => Err(e),
        }
    }

    /// Handle a response carrying one block: the request it answers is no
    /// longer pending, and the block is processed.
    pub fn handle_block_response(&mut self, response: BlockResponseMessage) -> (res: Result<
        (),
        P2PError,
    >)
        requires
            old(self).wf(),
        ensures
            final(self).wf(),
            final(self).pending() == match response.request_id {
                Some(id) => without_request(old(self).pending(), id),
                None => old(self).pending(),
            },
            unit_result_view(res) == validation_verdict(
                old(self).pipeline().state(),
                response.block.header.block_number,
            ),
            final(self).progress() == process_one(old(self).progress(), response.block),
            final(self).target() == old(self).target(),
            final(self).next_id() == old(self).next_id(),
            final(self).running() == old(self).running(),
    {
        if let Some(request_id) = response.request_id {
            let _ = self.take_request(request_id);
        }
        self.process_received_block(response.block)
    }

    /// Handle a response carrying a range of blocks: the request it answers is
    /// no longer pending, and each block is processed in order (a block that
    /// fails does not stop the others). When the peer says more blocks follow
    /// from a block not beyond the target, the range to request next is returned.
    pub fn handle_block_range_response(&mut self, response: BlockRangeResponseMessage) -> (res: Result<
        Option<(u64, u64)>,
        P2PError,
    >)
        requires
            old(self).wf(),
        ensures
            final(self).wf(),
            final(self).pending() == without_request(old(self).pending(), response.request_id),
            final(self).target() == old(self).target(),
            final(self).next_id() == old(self).next_id(),
            final(self).running() == old(self).running(),
            old(self).current() == old(self).pipeline().state().current_block ==> final(self).current() == final(self).pipeline().state().current_block,
            final(self).progress() == process_blocks(old(self).progress(), response.blocks@),
            res == Ok::<Option<(u64, u64)>, P2PError>(
                match response.next_block {
                    Some(next) => if !response.is_last && next <= old(self).target() {
                        Some((next, follow_up_end(next, old(self).target())))
                    } else {
                        None
                    },
                    None => None,
                },
            ),
    {
        let _ = self.take_request(response.request_id);
        let ghost agree = self.current() == self.pipeline().state().current_block;
        let mut i: usize = 0;
        while i < response.blocks.len()
            invariant
                0 <= i <= response.blocks@.len(),
                self.wf(),
                self.pending() == without_request(old(self).pending(), response.request_id),
                self.target() == old(self).target(),
                self.next_id() == old(self).next_id(),
                self.running() == old(self).running(),
                agree ==> self.current() == self.pipeline().state().current_block,
                self.progress() == process_blocks(old(self).progress(), response.blocks@.take(i as int)),
            decreases response.blocks@.len() - i,
        {
            let block = response.blocks[i];
            proof {
                let t = response.blocks@.take(i as int + 1);
                assert(t.drop_last() =~= response.blocks@.take(i as int));
                assert(t.last() == block);
            }
            let _ = self.process_received_block(block);
            i = i + 1;
        }
        assert(response.blocks@.take(response.blocks@.len() as int) =~= response.blocks@);
        if !response.is_last {
            if let Some(next_block) = response.next_block {
                let target = self.target_block;
                if next_block <= target {
                    let end_block = if target - next_block >= 49 {
                        next_block + 49
                    } else {
                        target
                    };
                    return Ok(Some((next_block, end_block)));
                }
            }
        }
        Ok(None)
    }

    /// The ids of the requests that have been pending for more than
    /// `REQUEST_TIMEOUT_SECONDS` whole seconds at time `now` (nanoseconds on a
    /// monotonic clock), oldest first.
    pub fn check_request_timeouts(&self, now: u64) -> (res: Vec<u64>)
        ensures
            res@ == timed_out_ids(self.pending(), now),
    {
        let mut timed_out: Vec<u64> = Vec::new();
        let mut i: usize = 0;
        while i < self.pending_requests.len()
            invariant
                0 <= i <= self.pending().len(),
                timed_out@ == timed_out_ids(self.pending().take(i as int), now),
            decreases self.pending().len() - i,
        {
            let ghost t = self.pending().take(i as int + 1);
            assert(t.drop_last() =~= self.pending().take(i as int));
            assert(t.last() == self.pending()[i as int]);
            let request = self.pending_requests[i];
            if now >= request.sent_at && (now - request.sent_at) / NANOS_PER_SECOND > REQUEST_TIMEOUT_SECONDS {
                timed_out.push(request.request_id);
            }
            i = i + 1;
        }
        assert(self.pending().take(self.pending().len() as int) =~= self.pending());
        timed_out
    }

    /// Retry a timed-out request at time `now` (nanoseconds on a monotonic
    /// clock) with the connected `peers`.
    ///
    /// The request is taken out of the pending ones. If it has been retried
    /// fewer than `MAX_RETRIES` times, it is sent again under the same id: to
    /// the peer at position (retries + 1) modulo the number of peers, recorded
    /// as pending again with one more retry, and the peer and request are
    /// returned. With no peer connected the request is dropped and an error
    /// returned. A request retried too often, or not pending, gives `None`.
    pub fn retry_request(&mut self, request_id: u64, peers: &Vec<PeerId>, now: u64) -> (res: Result<
        Option<(PeerId, BlockRangeRequestMessage)>,
        P2PError,
    >)
        requires
            old(self).wf(),
        ensures
            final(self).wf(),
            final(self).pipeline() == old(self).pipeline(),
            final(self).current() == old(self).current(),
            final(self).target() == old(self).target(),
            final(self).next_id() == old(self).next_id(),
            final(self).running() == old(self).running(),
            ({
                let old_pending = old(self).pending();
                let dropped = without_request(old_pending, request_id);
                if has_request(old_pending, request_id) && old_pending[request_index(
                    old_pending,
                    request_id,
                )].retry_count < MAX_RETRIES {
                    let r = old_pending[request_index(old_pending, request_id)];
                    let retries = (r.retry_count + 1) as u32;
                    if peers@.len() == 0 {
                        &&& res matches Err(e) && e@ == P2PErrorView::ProtocolError(
                            "No peers connected"@,
                        )
                        &&& final(self).pending() == dropped
                    } else {
                        &&& res == Ok::<Option<(PeerId, BlockRangeRequestMessage)>, P2PError>(
                            Some(
                                (
                                    peers@[retries as int % peers@.len() as int],
                                    range_request(r.start_block, r.end_block, request_id),
                                ),
                            ),
                        )
                        &&& final(self).pending() == dropped.push(
                            PendingRequest { sent_at: now, retry_count: retries, ..r },
                        )
                    }
                } else {
                    &&& res == Ok::<Option<(PeerId, BlockRangeRequestMessage)>, P2PError>(None)
                    &&& final(self).pending() == dropped
                }
            }),
    {
        let taken = self.take_request(request_id);
        match taken {
            Some(request) => {
                if request.retry_count < MAX_RETRIES {
                    let retries = request.retry_count + 1;
                    if peers.len() == 0 {
                        return Err(P2PError::ProtocolError(String::from_str("No peers connected")));
                    }
                    let peer_index = (retries as usize) % peers.len();
                    let peer_id = peers[peer_index];
                    let message = BlockRangeRequestMessage::new(
                        request.start_block,
                        request.end_block,
                        MAX_BLOCKS_PER_REQUEST,
                        true,
                        request_id,
                    );
                    let again = PendingRequest { sent_at: now, retry_count: retries, ..request };
                    let ghost before = self.pending();
                    proof {
                        assert(!has_request(before, request_id));
                        assert(request_id < self.next_id());
                    }
                    self.pending_requests.push(again);
                    proof {
                        let after = self.pending();
                        assert(after =~= before.push(again));
                        assert forall|a: int, b: int|
                            0 <= a < after.len() && 0 <= b < after.len() && a != b implies #[trigger] after[a].request_id
                                != #[trigger] after[b].request_id by {
                            if a == before.len() {
                                assert(before[b].request_id != request_id);
                            } else if b == before.len() {
                                assert(before[a].request_id != request_id);
                            }
                        }
                    }
                    Ok(Some((peer_id, message)))
                } else {
                    Ok(None)
                }
            },
            None => Ok(None),
        }
    }

    /// The range to request next, if the service is behind its target and
    /// fewer than `MAX_PARALLEL_REQUESTS` requests are pending.
    pub fn sync_plan(&self) -> (res: Option<(u64, u64)>)
        ensures
            res == spec_sync_plan(self.current(), self.target(), self.pending().len()),
    {
        let current = self.current_block;
        let target = self.target_block;
        if current < target && self.pending_requests.len() < MAX_PARALLEL_REQUESTS {
            let next_block = current + 1;
            let end_block = if target - next_block >= 49 {
                next_block + 49
            } else {
                target
            };
            Some((next_block, end_block))
        } else {
            None
        }
    }

    /// Start the service: mark it running. Starting a running service changes nothing.
    pub fn start(&mut self) -> (res: Result<(), P2PError>)
        ensures
            res is Ok,
            final(self).running(),
            final(self).pipeline() == old(self).pipeline(),
            final(self).current() == old(self).current(),
            final(self).target() == old(self).target(),
            final(self).pending() == old(self).pending(),
            final(self).next_id() == old(self).next_id(),
    {
        self.running = true;
        Ok(())
    }

    /// Stop the service: mark it not running.
    pub fn stop(&mut self) -> (res: Result<(), P2PError>)
        ensures
            res is Ok,
            !final(self).running(),
            final(self).pipeline() == old(self).pipeline(),
            final(self).current() == old(self).current(),
            final(self).target() == old(self).target(),
            final(self).pending() == old(self).pending(),
            final(self).next_id() == old(self).next_id(),
    {
        self.running = false;
        Ok(())
    }

    /// Get the current state root; this service reports the all-zero root.
    pub fn get_state_root(&self) -> (res: Result<StateRoot, P2PError>)
        ensures
            res == Ok::<StateRoot, P2PError>(super::storage::zero_state_root()),
    {
        let _state = self.pipeline.get_state();
        Ok(StateRoot::new([0u8; 32]))
    }

    /// Get the current block number
    pub fn get_block_number(&self) -> (res: Result<u64, P2PError>)
        ensures
            res == Ok::<u64, P2PError>(self.current()),
    {
        Ok(self.current_block)
    }
}

/// A default block sync service that does nothing
///
/// This is primarily used for testing or as a placeholder.
#[derive(Debug, Clone, Copy)]
pub struct DefaultBlockSyncService;

impl DefaultBlockSyncService {
    /// Start; nothing to do.
    pub fn start(&self) -> (res: Result<(), P2PError>)
        ensures
            res is Ok,
    {
        Ok(())
    }

    /// Stop; nothing to do.
    pub fn stop(&self) -> (res: Result<(), P2PError>)
        ensures
            res is Ok,
    {
        Ok(())
    }

    /// The all-zero state root.
    pub fn get_state_root(&self) -> (res: Result<StateRoot, P2PError>)
        ensures
            res == Ok::<StateRoot, P2PError>(super::storage::zero_state_root()),
    {
        Ok(StateRoot::new([0u8; 32]))
    }

    /// Block number 0.
    pub fn get_block_number(&self) -> (res: Result<u64, P2PError>)
        ensures
            res == Ok::<u64, P2PError>(0),
    {
        Ok(0)
    }

    /// Trigger a synchronisation; nothing to do.
    pub fn trigger_sync(&self) -> (res: Result<(), P2PError>)
        ensures
            res is Ok,
    {
        Ok(())
    }
}

} // verus!

verus! {

/// Whether `id` is among `ids`.
pub open spec fn id_listed(ids: Seq<u64>, id: u64) -> bool {
    exists|k: int| 0 <= k < ids.len() && #[trigger] ids[k] == id
}

/// Whether a pending request with this id was sent more than 30 whole
/// seconds before `now` (nanoseconds on a monotonic clock).
pub open spec fn has_request_older_than_30s(pending: Seq<PendingRequest>, id: u64, now: u64) -> bool {
    exists|i: int|
        0 <= i < pending.len() && (#[trigger] pending[i]).request_id == id && now >= pending[i].sent_at
            && (now - pending[i].sent_at) / 1_000_000_000int > 30
}

/// The timed-out ids at `now` are exactly those of the pending requests sent
/// more than `REQUEST_TIMEOUT_SECONDS` whole seconds before `now` (nanoseconds
/// on a monotonic clock): each listed id belongs to such a request, and each
/// such request's id is listed.
pub proof fn law_timed_out_ids_exact(pending: Seq<PendingRequest>, now: u64)
    ensures
        forall|k: int|
            0 <= k < timed_out_ids(pending, now).len() ==> has_request_older_than_30s(
                pending,
                #[trigger] timed_out_ids(pending, now)[k],
                now,
            ),
        forall|i: int|
            0 <= i < pending.len() && now >= (#[trigger] pending[i]).sent_at && (now - pending[i].sent_at)
                / 1_000_000_000int > 30 ==> id_listed(timed_out_ids(pending, now), pending[i].request_id),
    decreases pending.len(),
{
    if pending.len() > 0 {
        let d = pending.drop_last();
        let n = pending.len() - 1;
        let rest = timed_out_ids(d, now);
        let all = timed_out_ids(pending, now);
        law_timed_out_ids_exact(d, now);
        assert forall|k: int| 0 <= k < all.len() implies has_request_older_than_30s(
            pending,
            #[trigger] all[k],
            now,
        ) by {
            if k < rest.len() {
                assert(all[k] == rest[k]);
                assert(has_request_older_than_30s(d, rest[k], now));
                let i = choose|i: int|
                    0 <= i < d.len() && (#[trigger] d[i]).request_id == rest[k] && now >= d[i].sent_at && (now
                        - d[i].sent_at) / 1_000_000_000int > 30;
                assert(pending[i] == d[i]);
            } else {
                assert(pending[n] == pending.last());
            }
        }
        assert forall|i: int|
            0 <= i < pending.len() && now >= (#[trigger] pending[i]).sent_at && (now - pending[i].sent_at)
                / 1_000_000_000int > 30 implies id_listed(all, pending[i].request_id) by {
            if i < n {
                assert(d[i] == pending[i]);
                assert(id_listed(rest, d[i].request_id));
                let k = choose|k: int| 0 <= k < rest.len() && #[trigger] rest[k] == d[i].request_id;
                assert(all[k] == rest[k]);
            } else {
                assert(all[rest.len() as int] == pending[i].request_id);
            }
        }
    }
}

/// Taking a request out of the pending ones removes exactly the requests with
/// that id: the others stay, in order, and none with that id is left.
pub proof fn law_without_request_removes_only_that_id(pending: Seq<PendingRequest>, id: u64)
    requires
        forall|i: int, j: int|
            0 <= i < pending.len() && 0 <= j < pending.len() && i != j ==> #[trigger] pending[i].request_id
                != #[trigger] pending[j].request_id,
    ensures
        forall|i: int|
            0 <= i < without_request(pending, id).len() ==> (#[trigger] without_request(pending, id)[i]).request_id
                != id,
        forall|i: int|
            0 <= i < pending.len() && (#[trigger] pending[i]).request_id != id ==> without_request(
                pending,
                id,
            ).contains(pending[i]),
        without_request(pending, id).len() == pending.len() - (if has_request(pending, id) {
            1int
        } else {
            0
        }),
{
    let w = without_request(pending, id);
    if has_request(pending, id) {
        let r = request_index(pending, id);
        assert forall|i: int| 0 <= i < w.len() implies (#[trigger] w[i]).request_id != id by {
            let i0 = if i < r { i } else { i + 1 };
            assert(w[i] == pending[i0]);
        }
        assert forall|i: int| 0 <= i < pending.len() && (#[trigger] pending[i]).request_id != id implies w.contains(
            pending[i],
        ) by {
            if i < r {
                assert(w[i] == pending[i]);
            } else {
                assert(w[i - 1] == pending[i]);
            }
        }
    } else {
        assert forall|i: int| 0 <= i < w.len() implies (#[trigger] w[i]).request_id != id by {
            assert(w[i] == pending[i]);
        }
        assert forall|i: int| 0 <= i < pending.len() && (#[trigger] pending[i]).request_id != id implies w.contains(
            pending[i],
        ) by {
            assert(w[i] == pending[i]);
        }
    }
}

} // verus!

verus! {

/// Taking a received block: a block that passes validation can be read back
/// under its number, every other stored block stays, the latest number never
/// drops, and the block becomes the current one exactly when it is the next;
/// a block that fails validation changes nothing.
pub proof fn law_received_block_stored_or_ignored(p: SyncProgress, block: L2BlockMessage, m: u64)
    ensures
        ({
            let n = block.header.block_number;
            let q = process_one(p, block);
            if validation_verdict(p.state, n) is Ok {
                &&& q.stored.contains_key(n) && q.stored[n] == block
                &&& m != n ==> q.stored.contains_key(m) == p.stored.contains_key(m)
                &&& m != n && p.stored.contains_key(m) ==> q.stored[m] == p.stored[m]
                &&& q.latest >= p.latest && q.latest >= n
                &&& q.current == (if n == p.current + 1 {
                    n
                } else {
                    p.current
                })
            } else {
                q == p
            }
        }),
{
}

} // verus!

use citrea_p2p::error::P2PError;
use citrea_p2p::messages::blocks::{
    BlockRangeResponseMessage, BlockResponseMessage, L2BlockHeader, L2BlockMessage,
};
use citrea_p2p::sync::builder::BlockSyncServiceBuilder;
use citrea_p2p::sync::pipeline::{DefaultBlockSyncPipeline, StandardBlockPipeline};
use citrea_p2p::sync::service::{
    DefaultBlockSyncService, NetworkedBlockSyncService, MAX_BLOCKS_PER_REQUEST,
    MAX_PARALLEL_REQUESTS, MAX_RETRIES, REQUEST_TIMEOUT_SECONDS,
};
use citrea_p2p::sync::storage::{BlockStorageFactory, InMemoryBlockStorage};
use citrea_p2p::types::{MerkleRoot, PeerId, StateRoot};

fn block(number: u64) -> L2BlockMessage {
    L2BlockMessage::new(
        L2BlockHeader::new(number, 1000 + number, [0u8; 32], StateRoot::new([number as u8; 32])),
        MerkleRoot::new([0u8; 32]),
    )
}

fn peers(n: u8) -> Vec<PeerId> {
    (1..=n).map(|b| PeerId::new([b; 32])).collect()
}

fn service(start: u64, target: u64) -> NetworkedBlockSyncService {
    BlockSyncServiceBuilder::new()
        .with_start_block(start)
        .with_target_block(target)
        .with_memory_storage()
        .build()
}

#[test]
fn constants() {
    assert_eq!(MAX_BLOCKS_PER_REQUEST, 50);
    assert_eq!(MAX_PARALLEL_REQUESTS, 3);
    assert_eq!(REQUEST_TIMEOUT_SECONDS, 30);
    assert_eq!(MAX_RETRIES, 3);
}

#[test]
fn empty_storage() {
    let s = InMemoryBlockStorage::new();
    assert!(s.get_block(0).unwrap().is_none());
    assert_eq!(s.get_latest_block_number().unwrap(), 0);
    assert!(s.get_state_root(3).unwrap().is_none());
    assert!(s.get_latest_state_root().unwrap() == StateRoot::new([0u8; 32]));
    let d = InMemoryBlockStorage::default();
    assert_eq!(d.get_latest_block_number().unwrap(), 0);
    let f = BlockStorageFactory::create_memory_storage();
    assert!(f.get_block(1).unwrap().is_none());
}

#[test]
fn read_after_store() {
    let mut s = InMemoryBlockStorage::new();
    s.store_block(&block(3)).unwrap();
    let got = s.get_block(3).unwrap().unwrap();
    assert_eq!(got.header.block_number, 3);
    assert_eq!(got.header.timestamp, 1003);
    assert!(s.get_block(2).unwrap().is_none());
    assert!(s.get_state_root(3).unwrap().unwrap() == StateRoot::new([3u8; 32]));
    assert_eq!(s.get_latest_block_number().unwrap(), 3);
    assert!(s.get_latest_state_root().unwrap() == StateRoot::new([3u8; 32]));
}

#[test]
fn latest_is_the_highest_stored() {
    let mut s = InMemoryBlockStorage::new();
    s.store_block(&block(5)).unwrap();
    s.store_block(&block(2)).unwrap();
    assert_eq!(s.get_latest_block_number().unwrap(), 5);
    let mut replaced = block(5);
    replaced.header.timestamp = 9;
    s.store_block(&replaced).unwrap();
    assert_eq!(s.get_block(5).unwrap().unwrap().header.timestamp, 9);
    assert!(s.get_block(2).unwrap().is_some());
}

#[test]
fn storage_with_blocks() {
    let s = InMemoryBlockStorage::with_blocks(vec![block(1), block(4), block(2)]);
    assert_eq!(s.get_latest_block_number().unwrap(), 4);
    assert!(s.get_block(1).unwrap().is_some());
    assert!(s.get_block(2).unwrap().is_some());
    assert!(s.get_block(3).unwrap().is_none());
    let f = BlockStorageFactory::create_memory_storage_with_blocks(vec![block(7)]);
    assert_eq!(f.get_latest_block_number().unwrap(), 7);
}

#[test]
fn pipeline_takes_blocks_in_order() {
    let mut p = StandardBlockPipeline::new(InMemoryBlockStorage::new(), 0, 3);
    let s = p.get_state().unwrap();
    assert_eq!((s.current_block, s.target_block, s.is_syncing, s.blocks_processed, s.blocks_remaining), (0, 3, true, 0, 3));
    p.process_block(block(1)).unwrap();
    let s = p.get_state().unwrap();
    assert_eq!((s.current_block, s.is_syncing, s.blocks_processed, s.blocks_remaining), (1, true, 1, 2));
    p.process_block(block(2)).unwrap();
    p.process_block(block(3)).unwrap();
    let s = p.get_state().unwrap();
    assert_eq!((s.current_block, s.is_syncing, s.blocks_processed, s.blocks_remaining), (3, false, 3, 0));
    assert!(p.storage().get_block(3).unwrap().is_some());
}

#[test]
fn pipeline_refuses_a_gap() {
    let mut p = StandardBlockPipeline::new(InMemoryBlockStorage::new(), 0, 10);
    match p.process_block(block(2)) {
        Err(P2PError::InvalidMessage(text)) => {
            assert_eq!(text, "Non-sequential block: expected 1, got 2")
        }
        other => panic!("unexpected {:?}", other),
    }
    let s = p.get_state().unwrap();
    assert_eq!((s.current_block, s.blocks_processed), (0, 0));
    assert!(p.storage().get_block(2).unwrap().is_none());
}

#[test]
fn pipeline_stores_genesis_without_advancing() {
    let mut p = StandardBlockPipeline::new(InMemoryBlockStorage::new(), 5, 10);
    p.process_block(block(0)).unwrap();
    let s = p.get_state().unwrap();
    assert_eq!((s.current_block, s.blocks_processed, s.blocks_remaining), (5, 0, 5));
    assert!(p.storage().get_block(0).unwrap().is_some());
}

#[test]
fn pipeline_past_target_is_not_syncing() {
    let p = StandardBlockPipeline::new(InMemoryBlockStorage::new(), 9, 3);
    let s = p.get_state().unwrap();
    assert!(!s.is_syncing);
    assert_eq!(s.blocks_remaining, 0);
}

#[test]
fn default_pipeline_and_service_do_nothing() {
    let p = DefaultBlockSyncPipeline;
    assert!(p.process_block(block(1)).is_ok());
    let s = p.get_state().unwrap();
    assert_eq!((s.current_block, s.target_block, s.is_syncing, s.blocks_processed, s.blocks_remaining), (0, 0, false, 0, 0));
    let d = DefaultBlockSyncService;
    assert!(d.start().is_ok());
    assert!(d.stop().is_ok());
    assert!(d.trigger_sync().is_ok());
    assert_eq!(d.get_block_number().unwrap(), 0);
    assert!(d.get_state_root().unwrap() == StateRoot::new([0u8; 32]));
}

#[test]
fn builder_defaults_and_memory_blocks() {
    let s = BlockSyncServiceBuilder::new().build();
    assert!(!s.is_running());
    assert_eq!(s.get_block_number().unwrap(), 0);
    assert!(s.sync_plan().is_none());
    assert_eq!(s.next_request_id(), 1);
    let s = BlockSyncServiceBuilder::new()
        .with_memory_blocks(vec![block(1), block(2)])
        .with_start_block(2)
        .with_target_block(4)
        .build();
    assert_eq!(s.block_pipeline().storage().get_latest_block_number().unwrap(), 2);
    assert_eq!(s.get_block_number().unwrap(), 2);
    assert_eq!(s.sync_plan(), Some((3, 4)));
}

#[test]
fn start_and_stop() {
    let mut s = service(0, 10);
    s.start().unwrap();
    assert!(s.is_running());
    s.start().unwrap();
    assert!(s.is_running());
    s.stop().unwrap();
    assert!(!s.is_running());
    assert!(s.get_state_root().unwrap() == StateRoot::new([0u8; 32]));
}

#[test]
fn request_needs_a_peer() {
    let mut s = service(0, 100);
    match s.request_blocks_from_peers(&vec![], 1, 10, 0) {
        Err(P2PError::ProtocolError(text)) => assert_eq!(text, "No peers connected"),
        other => panic!("unexpected {:?}", other),
    }
    assert!(s.pending_requests().is_empty());
    assert_eq!(s.next_request_id(), 1);
}

#[test]
fn request_is_capped_and_recorded() {
    let mut s = service(0, 1000);
    let (peer, req) = s.request_blocks_from_peers(&peers(2), 1, 200, 77).unwrap();
    assert!(peer == PeerId::new([1u8; 32]));
    assert_eq!((req.start_block, req.end_block, req.max_blocks, req.include_transactions, req.request_id), (1, 50, 50, true, 1));
    let (_, small) = s.request_blocks_from_peers(&peers(1), 51, 60, 78).unwrap();
    assert_eq!((small.start_block, small.end_block, small.request_id), (51, 60, 2));
    let pending = s.pending_requests();
    assert_eq!(pending.len(), 2);
    assert_eq!((pending[0].start_block, pending[0].end_block, pending[0].request_id, pending[0].sent_at, pending[0].retry_count), (1, 50, 1, 77, 0));
    assert_eq!(pending[1].request_id, 2);
    assert_eq!(s.next_request_id(), 3);
}

#[test]
fn request_of_exactly_fifty_blocks_is_capped_at_fifty() {
    let mut s = service(0, 1000);
    let (_, req) = s.request_blocks_from_peers(&peers(1), 1, 50, 0).unwrap();
    assert_eq!(req.end_block, 50);
    let (_, req) = s.request_blocks_from_peers(&peers(1), 1, 51, 0).unwrap();
    assert_eq!(req.end_block, 50);
}

#[test]
fn sync_plan_stops_at_parallel_limit_and_target() {
    let mut s = service(0, 120);
    assert_eq!(s.sync_plan(), Some((1, 50)));
    for i in 0..3u64 {
        s.request_blocks_from_peers(&peers(1), 1 + 50 * i, 50 + 50 * i, 0).unwrap();
    }
    assert_eq!(s.sync_plan(), None);
    let s = service(100, 120);
    assert_eq!(s.sync_plan(), Some((101, 120)));
    let s = service(120, 120);
    assert_eq!(s.sync_plan(), None);
}

#[test]
fn block_response_clears_request_and_advances() {
    let mut s = service(0, 10);
    let (_, req) = s.request_blocks_from_peers(&peers(1), 1, 1, 0).unwrap();
    s.handle_block_response(BlockResponseMessage { block: block(1), request_id: Some(req.request_id) })
        .unwrap();
    assert!(s.pending_requests().is_empty());
    assert_eq!(s.get_block_number().unwrap(), 1);
    assert_eq!(s.block_pipeline().get_state().unwrap().current_block, 1);
}

#[test]
fn out_of_order_block_is_refused_by_service() {
    let mut s = service(0, 10);
    assert!(matches!(s.process_received_block(block(3)), Err(P2PError::InvalidMessage(_))));
    assert_eq!(s.get_block_number().unwrap(), 0);
    assert!(s.process_received_block(block(1)).is_ok());
    assert_eq!(s.get_block_number().unwrap(), 1);
}

#[test]
fn range_response_processes_blocks_and_plans_follow_up() {
    let mut s = service(0, 120);
    let (_, req) = s.request_blocks_from_peers(&peers(1), 1, 3, 0).unwrap();
    let response = BlockRangeResponseMessage {
        request_id: req.request_id,
        blocks: vec![block(1), block(2), block(5), block(3)],
        is_last: false,
        next_block: Some(4),
    };
    assert_eq!(s.handle_block_range_response(response).unwrap(), Some((4, 53)));
    assert!(s.pending_requests().is_empty());
    assert_eq!(s.get_block_number().unwrap(), 3);
}

#[test]
fn range_response_follow_up_stops_at_target() {
    let mut s = service(0, 10);
    let last = BlockRangeResponseMessage { request_id: 9, blocks: vec![], is_last: true, next_block: Some(4) };
    assert_eq!(s.handle_block_range_response(last).unwrap(), None);
    let near = BlockRangeResponseMessage { request_id: 9, blocks: vec![], is_last: false, next_block: Some(8) };
    assert_eq!(s.handle_block_range_response(near).unwrap(), Some((8, 10)));
    let beyond = BlockRangeResponseMessage { request_id: 9, blocks: vec![], is_last: false, next_block: Some(11) };
    assert_eq!(s.handle_block_range_response(beyond).unwrap(), None);
    let none = BlockRangeResponseMessage { request_id: 9, blocks: vec![], is_last: false, next_block: None };
    assert_eq!(s.handle_block_range_response(none).unwrap(), None);
}

#[test]
fn timeouts_are_strictly_longer_than_thirty_whole_seconds() {
    const S: u64 = 1_000_000_000;
    let mut s = service(0, 1000);
    s.request_blocks_from_peers(&peers(1), 1, 10, 100 * S).unwrap();
    s.request_blocks_from_peers(&peers(1), 11, 20, 120 * S).unwrap();
    assert!(s.check_request_timeouts(130 * S).is_empty());
    assert!(s.check_request_timeouts(131 * S - 1).is_empty());
    assert_eq!(s.check_request_timeouts(131 * S), vec![1]);
    assert_eq!(s.check_request_timeouts(151 * S), vec![1, 2]);
    assert!(s.check_request_timeouts(50 * S).is_empty());
}

#[test]
fn retry_goes_to_the_next_peer_and_gives_up_after_three() {
    let mut s = service(0, 1000);
    let ps = peers(3);
    s.request_blocks_from_peers(&ps, 1, 10, 0).unwrap();
    let (peer, req) = s.retry_request(1, &ps, 40).unwrap().unwrap();
    assert!(peer == ps[1]);
    assert_eq!((req.start_block, req.end_block, req.request_id), (1, 10, 1));
    assert_eq!(s.pending_requests()[0].retry_count, 1);
    assert_eq!(s.pending_requests()[0].sent_at, 40);
    let (peer, _) = s.retry_request(1, &ps, 80).unwrap().unwrap();
    assert!(peer == ps[2]);
    let (peer, _) = s.retry_request(1, &ps, 120).unwrap().unwrap();
    assert!(peer == ps[0]);
    assert_eq!(s.pending_requests()[0].retry_count, 3);
    assert!(s.retry_request(1, &ps, 160).unwrap().is_none());
    assert!(s.pending_requests().is_empty());
}

#[test]
fn retry_without_peers_drops_the_request() {
    let mut s = service(0, 1000);
    s.request_blocks_from_peers(&peers(1), 1, 10, 0).unwrap();
    match s.retry_request(1, &vec![], 40) {
        Err(P2PError::ProtocolError(text)) => assert_eq!(text, "No peers connected"),
        other => panic!("unexpected {:?}", other),
    }
    assert!(s.pending_requests().is_empty());
    assert!(s.retry_request(1, &peers(1), 50).unwrap().is_none());
}

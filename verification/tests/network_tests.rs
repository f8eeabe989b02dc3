use citrea_p2p::config::P2PConfig;
use citrea_p2p::error::P2PError;
use citrea_p2p::message::Message;
use citrea_p2p::network::{Network, Outgoing};
use citrea_p2p::peer::PeerInfo;
use citrea_p2p::types::PeerId;

fn id(byte: u8) -> PeerId {
    PeerId::new([byte; 32])
}

fn info(byte: u8) -> PeerInfo {
    PeerInfo {
        id: id(byte),
        address: format!("10.0.0.{}:30303", byte),
        last_seen: 500,
        version: 1,
        capabilities: vec![],
    }
}

fn network_with(max_connections: usize) -> Network {
    let mut config = P2PConfig::default();
    config.max_connections = max_connections;
    Network::new(id(0), config)
}

fn targets(out: &[Outgoing]) -> Vec<PeerId> {
    out.iter().map(|o| o.target).collect()
}

#[test]
fn new_network_is_empty_and_stopped() {
    let net = network_with(5);
    assert!(!net.is_running());
    assert!(net.get_connected_peers().is_empty());
    assert!(net.get_known_peers().is_empty());
    assert!(net.local_id == id(0));
}

#[test]
fn connect_adds_a_connected_known_peer() {
    let mut net = network_with(5);
    assert!(net.connect_at(info(1), 1000).is_ok());
    let connected = net.get_connected_peers();
    assert_eq!(connected.len(), 1);
    assert!(connected[0].same_as(&info(1)));
    let known = net.get_known_peers();
    assert_eq!(known.len(), 1);
    assert!(known[0].same_as(&info(1)));
    let c = net.get_peer_connection(id(1)).unwrap();
    assert!(c.connected);
    assert!(c.outbound);
    assert_eq!(c.last_activity, 1000);
    assert_eq!(c.failure_count, 0);
    assert_eq!(c.last_ping_nonce, None);
}

#[test]
fn connect_twice_is_already_connected() {
    let mut net = network_with(5);
    net.connect_at(info(1), 1000).unwrap();
    match net.connect_at(info(1), 1001) {
        Err(P2PError::AlreadyConnected(p)) => assert!(p == id(1)),
        other => panic!("unexpected {:?}", other),
    }
    assert_eq!(net.get_connected_peers().len(), 1);
    assert_eq!(net.get_peer_connection(id(1)).unwrap().last_activity, 1000);
}

#[test]
fn connect_beyond_limit_is_refused() {
    let mut net = network_with(2);
    net.connect_at(info(1), 1).unwrap();
    net.connect_at(info(2), 1).unwrap();
    assert!(matches!(net.connect_at(info(3), 1), Err(P2PError::MaxConnectionsReached)));
    assert!(net.get_peer_connection(id(3)).is_none());
    assert_eq!(net.get_known_peers().len(), 2);
}

#[test]
fn connect_with_the_clock() {
    let mut net = network_with(2);
    net.connect(info(1)).unwrap();
    assert!(net.get_peer_connection(id(1)).unwrap().last_activity > 0);
}

#[test]
fn disconnect_keeps_entry_but_closes_it() {
    let mut net = network_with(5);
    net.connect_at(info(1), 1).unwrap();
    net.connect_at(info(2), 1).unwrap();
    net.disconnect(id(1)).unwrap();
    let connected = net.get_connected_peers();
    assert_eq!(connected.len(), 1);
    assert!(connected[0].id == id(2));
    assert!(!net.get_peer_connection(id(1)).unwrap().connected);
    assert!(net.get_peer_connection(id(2)).unwrap().connected);
    assert_eq!(net.get_known_peers().len(), 2);
}

#[test]
fn disconnect_unknown_peer_is_not_found() {
    let mut net = network_with(5);
    match net.disconnect(id(9)) {
        Err(P2PError::PeerNotFound(p)) => assert!(p == id(9)),
        other => panic!("unexpected {:?}", other),
    }
}

#[test]
fn send_to_absent_closed_and_open_peers() {
    let mut net = network_with(5);
    let ping = Message::Ping { nonce: 1, timestamp: 2 };
    assert!(matches!(net.send_message(id(1), &ping), Err(P2PError::PeerNotFound(_))));
    net.connect_at(info(1), 1).unwrap();
    net.disconnect(id(1)).unwrap();
    match net.send_message(id(1), &ping) {
        Err(P2PError::Network(text)) => assert_eq!(text, "Peer not connected"),
        other => panic!("unexpected {:?}", other),
    }
    assert!(net.take_outbox().is_empty());
    net.connect_at(info(2), 1).unwrap();
    net.send_message(id(2), &ping).unwrap();
    let out = net.take_outbox();
    assert_eq!(out.len(), 1);
    assert!(out[0].target == id(2));
    assert!(matches!(out[0].message, Message::Ping { nonce: 1, timestamp: 2 }));
    assert!(net.take_outbox().is_empty());
}

#[test]
fn broadcast_reaches_every_connected_peer_in_order() {
    let mut net = network_with(5);
    net.connect_at(info(1), 1).unwrap();
    net.connect_at(info(2), 1).unwrap();
    net.connect_at(info(3), 1).unwrap();
    net.disconnect(id(2)).unwrap();
    net.broadcast(&Message::DiscoverPeers).unwrap();
    let out = net.take_outbox();
    assert!(targets(&out) == vec![id(1), id(3)]);
    assert!(out.iter().all(|o| matches!(o.message, Message::DiscoverPeers)));
}

#[test]
fn ping_is_answered_with_pong_of_same_nonce() {
    let mut net = network_with(5);
    net.connect_at(info(1), 1).unwrap();
    net.handle_ping_at(id(1), 77, 5, 1234).unwrap();
    let out = net.take_outbox();
    assert_eq!(out.len(), 1);
    assert!(out[0].target == id(1));
    assert!(matches!(out[0].message, Message::Pong { nonce: 77, timestamp: 1234 }));
}

#[test]
fn ping_from_unknown_peer_is_not_found() {
    let mut net = network_with(5);
    assert!(matches!(net.handle_ping_at(id(4), 1, 1, 1), Err(P2PError::PeerNotFound(_))));
    assert!(matches!(net.handle_ping(id(4), 1, 1), Err(P2PError::PeerNotFound(_))));
}

#[test]
fn maintenance_pings_idle_peers_and_pong_records_rtt() {
    let mut net = network_with(5);
    net.connect_at(info(1), 1000).unwrap();
    net.connect_at(info(2), 1010).unwrap();
    // ping interval 30: idle for more than 15 s gets a ping
    let pings = net.maintenance_tick_at(1020);
    assert_eq!(pings.len(), 1);
    assert!(pings[0].target == id(1));
    let nonce = match pings[0].message {
        Message::Ping { nonce, timestamp } => {
            assert_eq!(timestamp, 1020);
            nonce
        }
        _ => panic!("expected a ping"),
    };
    assert_eq!(net.get_peer_connection(id(1)).unwrap().last_ping_nonce, Some(nonce));
    assert_eq!(net.get_peer_connection(id(2)).unwrap().last_ping_nonce, None);
    // a pong with another nonce changes nothing
    net.handle_pong_at(id(1), nonce.wrapping_add(1), 1020, 1022).unwrap();
    assert_eq!(net.get_peer_connection(id(1)).unwrap().last_ping_nonce, Some(nonce));
    assert_eq!(net.get_peer_connection(id(1)).unwrap().ping_rtt_ms, None);
    // the matching pong records the round trip in milliseconds
    net.handle_pong_at(id(1), nonce, 1020, 1022).unwrap();
    let c = net.get_peer_connection(id(1)).unwrap();
    assert_eq!(c.last_ping_nonce, None);
    assert_eq!(c.ping_rtt_ms, Some(2000));
}

#[test]
fn pong_stamped_in_the_future_counts_as_no_time() {
    let mut net = network_with(5);
    net.connect_at(info(1), 1000).unwrap();
    let pings = net.maintenance_tick_at(1100);
    let nonce = match pings[0].message {
        Message::Ping { nonce, .. } => nonce,
        _ => panic!("expected a ping"),
    };
    net.handle_pong_at(id(1), nonce, 2000, 1101).unwrap();
    assert_eq!(net.get_peer_connection(id(1)).unwrap().ping_rtt_ms, Some(0));
}

#[test]
fn maintenance_closes_timed_out_connections() {
    let mut net = network_with(5);
    net.connect_at(info(1), 1000).unwrap();
    net.connect_at(info(2), 1100).unwrap();
    // timeout 120: peer 1 idle 121 s, peer 2 idle 21 s
    let pings = net.maintenance_tick_at(1121);
    assert!(!net.get_peer_connection(id(1)).unwrap().connected);
    assert!(net.get_peer_connection(id(2)).unwrap().connected);
    assert!(targets(&pings) == vec![id(2)]);
}

#[test]
fn maintenance_with_nothing_idle_sends_nothing() {
    let mut net = network_with(5);
    net.connect_at(info(1), 1000).unwrap();
    assert!(net.maintenance_tick_at(1015).is_empty());
    assert!(net.get_peer_connection(id(1)).unwrap().last_ping_nonce.is_none());
    let mut fresh = network_with(5);
    fresh.connect(info(1)).unwrap();
    assert!(fresh.maintenance_tick().is_empty());
}

#[test]
fn discover_peers_answers_with_connected_peers() {
    let mut net = network_with(5);
    net.connect_at(info(1), 1).unwrap();
    net.connect_at(info(2), 1).unwrap();
    net.disconnect(id(2)).unwrap();
    net.handle_discover_peers(id(1)).unwrap();
    let out = net.take_outbox();
    assert_eq!(out.len(), 1);
    assert!(out[0].target == id(1));
    match &out[0].message {
        Message::PeerList { peers } => {
            assert_eq!(peers.len(), 1);
            assert!(peers[0].same_as(&info(1)));
        }
        _ => panic!("expected a peer list"),
    }
}

#[test]
fn peer_list_adds_new_peers_but_never_ourselves() {
    let mut net = network_with(5);
    net.connect_at(info(1), 1).unwrap();
    let list = vec![info(0), info(1), info(2), info(2), info(3)];
    net.handle_peer_list(id(1), list).unwrap();
    let known = net.get_known_peers();
    assert_eq!(known.len(), 3);
    assert!(known[0].same_as(&info(1)));
    assert!(known[1].same_as(&info(2)));
    assert!(known[2].same_as(&info(3)));
    assert!(net.get_connected_peers().len() == 1);
}

#[test]
fn direct_message_for_us_is_kept() {
    let mut net = network_with(5);
    net.connect_at(info(1), 1).unwrap();
    net.handle_direct_message(id(1), id(0), vec![1, 2]).unwrap();
    assert!(net.take_outbox().is_empty());
}

#[test]
fn direct_message_for_another_peer_is_forwarded() {
    let mut net = network_with(5);
    net.connect_at(info(1), 1).unwrap();
    net.connect_at(info(2), 1).unwrap();
    net.handle_direct_message(id(1), id(2), vec![9]).unwrap();
    let out = net.take_outbox();
    assert_eq!(out.len(), 1);
    assert!(out[0].target == id(2));
    match &out[0].message {
        Message::DirectMessage { target, data } => {
            assert!(*target == id(2));
            assert_eq!(data, &vec![9u8]);
        }
        _ => panic!("expected a direct message"),
    }
    assert!(matches!(
        net.handle_direct_message(id(1), id(7), vec![]),
        Err(P2PError::PeerNotFound(_))
    ));
}

#[test]
fn handshake_rekeys_the_connection_under_the_announced_id() {
    let mut net = network_with(5);
    net.connect_at(info(1), 1000).unwrap();
    net.handle_handshake_at(id(1), 3, id(8), 30303, vec!["fast".to_string()], 2000)
        .unwrap();
    assert!(net.get_peer_connection(id(1)).is_none());
    let c = net.get_peer_connection(id(8)).unwrap();
    assert!(c.info.id == id(8));
    assert_eq!(c.info.address, "10.0.0.1:30303");
    assert_eq!(c.info.version, 3);
    assert_eq!(c.info.last_seen, 2000);
    assert_eq!(c.info.capabilities, vec!["fast".to_string()]);
    assert!(c.connected);
    assert!(c.outbound);
    let known = net.get_known_peers();
    assert_eq!(known.len(), 2);
    assert!(known[1].id == id(8));
    // our own connection was outbound, so nothing is sent back
    assert!(net.take_outbox().is_empty());
}

#[test]
fn handshake_with_same_id_updates_the_info() {
    let mut net = network_with(5);
    net.connect_at(info(1), 1000).unwrap();
    net.handle_handshake_at(id(1), 2, id(1), 30303, vec![], 3000).unwrap();
    let c = net.get_peer_connection(id(1)).unwrap();
    assert_eq!(c.info.version, 2);
    assert_eq!(c.info.last_seen, 3000);
    assert_eq!(net.get_connected_peers().len(), 1);
}

#[test]
fn handshake_from_unknown_peer_changes_nothing() {
    let mut net = network_with(5);
    net.handle_handshake_at(id(4), 1, id(5), 1, vec![], 10).unwrap();
    assert!(net.get_known_peers().is_empty());
    assert!(net.get_peer_connection(id(5)).is_none());
    net.handle_handshake(id(4), 1, id(5), 1, vec![]).unwrap();
    assert!(net.get_known_peers().is_empty());
}

#[test]
fn gossip_is_forwarded_with_less_ttl_but_not_echoed() {
    let mut net = network_with(5);
    net.connect_at(info(1), 1).unwrap();
    net.connect_at(info(2), 1).unwrap();
    net.connect_at(info(3), 1).unwrap();
    net.handle_gossip(id(2), "blocks".to_string(), vec![5], 3).unwrap();
    let out = net.take_outbox();
    assert!(targets(&out) == vec![id(1), id(3)]);
    for o in &out {
        match &o.message {
            Message::Gossip { topic, data, ttl } => {
                assert_eq!(topic, "blocks");
                assert_eq!(data, &vec![5u8]);
                assert_eq!(*ttl, 2);
            }
            _ => panic!("expected gossip"),
        }
    }
}

#[test]
fn gossip_without_ttl_goes_nowhere() {
    let mut net = network_with(5);
    net.connect_at(info(1), 1).unwrap();
    net.connect_at(info(2), 1).unwrap();
    net.handle_gossip(id(2), "t".to_string(), vec![], 0).unwrap();
    assert!(net.take_outbox().is_empty());
}

#[test]
fn custom_and_subscriptions_are_accepted() {
    let net = network_with(5);
    assert!(net.handle_custom(id(1), vec![1]).is_ok());
    assert!(net.handle_subscribe(id(1), "t".to_string()).is_ok());
    assert!(net.handle_unsubscribe(id(1), "t".to_string()).is_ok());
}

#[test]
fn any_message_records_activity_then_dispatches() {
    let mut net = network_with(5);
    net.connect_at(info(1), 1000).unwrap();
    net.handle_message_at(id(1), Message::Ping { nonce: 5, timestamp: 1 }, 1500).unwrap();
    assert_eq!(net.get_peer_connection(id(1)).unwrap().last_activity, 1500);
    let out = net.take_outbox();
    assert!(matches!(out[0].message, Message::Pong { nonce: 5, timestamp: 1500 }));
    net.handle_message_at(id(1), Message::Custom { data: vec![1] }, 1600).unwrap();
    assert_eq!(net.get_peer_connection(id(1)).unwrap().last_activity, 1600);
    net.handle_message_at(id(1), Message::Subscribe { topic: "a".to_string() }, 1700).unwrap();
    net.handle_message_at(id(1), Message::Unsubscribe { topic: "a".to_string() }, 1800)
        .unwrap();
    net.handle_message_at(id(1), Message::PeerList { peers: vec![info(6)] }, 1900).unwrap();
    assert_eq!(net.get_known_peers().len(), 2);
    net.handle_message(id(1), Message::DiscoverPeers).unwrap();
    assert!(net.get_peer_connection(id(1)).unwrap().last_activity >= 1900);
    assert_eq!(net.take_outbox().len(), 1);
}

#[test]
fn stop_closes_every_connection() {
    let mut net = network_with(5);
    net.start().unwrap();
    assert!(net.is_running());
    net.connect_at(info(1), 1).unwrap();
    net.connect_at(info(2), 1).unwrap();
    net.stop().unwrap();
    assert!(!net.is_running());
    assert!(net.get_connected_peers().is_empty());
    assert!(net.get_peer_connection(id(1)).is_some());
    assert!(net.get_peer_connection(id(2)).is_some());
}

#[test]
fn stop_when_not_running_changes_nothing() {
    let mut net = network_with(5);
    net.connect_at(info(1), 1).unwrap();
    net.stop().unwrap();
    assert_eq!(net.get_connected_peers().len(), 1);
}

#[test]
fn start_connects_to_bootstrap_nodes() {
    let mut config = P2PConfig::default();
    config.bootstrap_nodes = vec!["127.0.0.1:30303".to_string(), "127.0.0.1:30304".to_string()];
    let mut net = Network::new(id(0), config);
    net.start().unwrap();
    assert!(net.is_running());
    let connected = net.get_connected_peers();
    assert!(!connected.is_empty());
    assert!(connected.iter().all(|p| p.version == 1 && p.capabilities.is_empty()));
    assert_eq!(connected[0].address, "127.0.0.1:30303");
    // starting again changes nothing
    let before = net.get_connected_peers().len();
    net.start().unwrap();
    assert_eq!(net.get_connected_peers().len(), before);
}

#[test]
fn room_for_connections_counts_every_entry() {
    let mut net = network_with(2);
    assert!(net.has_room());
    net.connect_at(info(1), 1).unwrap();
    assert!(net.has_room());
    net.connect_at(info(2), 1).unwrap();
    assert!(!net.has_room());
    net.disconnect(id(1)).unwrap();
    assert!(!net.has_room());
}

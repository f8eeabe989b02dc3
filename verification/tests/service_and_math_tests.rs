use citrea_p2p::config::P2PConfig;
use citrea_p2p::fibonacci::{fibonacci_iterative, fibonacci_recursive};
use citrea_p2p::message::{Message, TimestampedMessage};
use citrea_p2p::messages::blocks::BlockRequestMessage;
use citrea_p2p::messages::envelope::CitreaMessage;
use citrea_p2p::p2p_service::{
    DefaultMessageHandler, DefaultP2PService, P2PServiceBuilder, PeerDiscoveryFactory,
    TransportType,
};
use citrea_p2p::types::PeerId;

#[test]
fn fibonacci_values() {
    let expected: [u64; 11] = [0, 1, 1, 2, 3, 5, 8, 13, 21, 34, 55];
    for (n, value) in expected.iter().enumerate() {
        assert_eq!(fibonacci_iterative(n as u32), *value);
        assert_eq!(fibonacci_recursive(n as u32), *value);
    }
    assert_eq!(fibonacci_iterative(50), 12586269025);
    assert_eq!(fibonacci_iterative(93), 12200160415121876738);
}

#[test]
fn fibonacci_never_decreases() {
    let mut previous = 0;
    for n in 0..=93u32 {
        let value = fibonacci_iterative(n);
        assert!(value >= previous);
        previous = value;
    }
}

#[test]
fn transport_names_in_any_case() {
    assert_eq!(TransportType::parse("tcp"), Some(TransportType::Tcp));
    assert_eq!(TransportType::parse("TCP"), Some(TransportType::Tcp));
    assert_eq!(TransportType::parse("Udp"), Some(TransportType::Udp));
    assert_eq!(TransportType::parse("WebSocket"), Some(TransportType::WebSocket));
    assert_eq!(TransportType::parse("WEBRTC"), Some(TransportType::WebRTC));
    assert_eq!(TransportType::parse("quic"), None);
    assert_eq!(TransportType::parse(""), None);
    assert_eq!(TransportType::parse(" tcp"), None);
}

#[test]
fn transport_lowercase_names_only() {
    assert_eq!(TransportType::from_lowercase_name("udp"), Some(TransportType::Udp));
    assert_eq!(TransportType::from_lowercase_name("websocket"), Some(TransportType::WebSocket));
    assert_eq!(TransportType::from_lowercase_name("webrtc"), Some(TransportType::WebRTC));
    assert_eq!(TransportType::from_lowercase_name("UDP"), None);
}

#[test]
fn p2p_service_builder_defaults_and_settings() {
    let builder = P2PServiceBuilder::new(P2PConfig::default());
    assert!(builder.config.enable_discovery);
    assert_eq!(builder.config.transport_type, TransportType::Tcp);
    assert_eq!(builder.config.p2p_config.port, 30303);
    let builder = builder.with_discovery(false).with_transport(TransportType::Udp);
    assert!(!builder.config.enable_discovery);
    assert_eq!(builder.config.transport_type, TransportType::Udp);
    let service = builder.build();
    assert!(service.start().is_ok());
    assert!(service.get_peers().unwrap().is_empty());
    assert!(service.stop().is_ok());
}

#[test]
fn default_services_accept_everything() {
    let service = DefaultP2PService;
    let peer = PeerId::new([1u8; 32]);
    let msg = || CitreaMessage::BlockRequest(BlockRequestMessage { block_number: 1 });
    assert!(service.send_message(peer, msg()).is_ok());
    assert!(service.broadcast_message(msg()).is_ok());
    let discovery = PeerDiscoveryFactory::create();
    assert!(discovery.start().is_ok());
    assert!(discovery.get_discovered_peers().unwrap().is_empty());
    assert!(discovery.stop().is_ok());
    assert!(DefaultMessageHandler.handle_message(peer, msg()).is_ok());
}

#[test]
fn message_clone_and_timestamp() {
    let m = Message::Gossip { topic: "t".to_string(), data: vec![1, 2], ttl: 4 };
    match m.clone() {
        Message::Gossip { topic, data, ttl } => {
            assert_eq!(topic, "t");
            assert_eq!(data, vec![1, 2]);
            assert_eq!(ttl, 4);
        }
        _ => panic!("clone changed the kind"),
    }
    let sender = PeerId::new([2u8; 32]);
    let stamped = TimestampedMessage::new(Message::DiscoverPeers, sender);
    assert!(stamped.sender == sender);
    assert!(stamped.timestamp > 0);
    assert!(matches!(stamped.message, Message::DiscoverPeers));
}

#[test]
fn timestamped_message_new_at_keeps_the_time() {
    let t = TimestampedMessage::new_at(Message::DiscoverPeers, PeerId::new([1u8; 32]), 99);
    assert_eq!(t.timestamp, 99);
    assert!(t.sender == PeerId::new([1u8; 32]));
}

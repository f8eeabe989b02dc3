use citrea_p2p::peer::{
    clone_peer_infos, clone_strings, string_lists_equal, strings_equal, PeerConnection, PeerInfo,
};
use citrea_p2p::types::PeerId;

fn info(byte: u8, address: &str) -> PeerInfo {
    PeerInfo {
        id: PeerId::new([byte; 32]),
        address: address.to_string(),
        last_seen: 100,
        version: 1,
        capabilities: vec!["basic".to_string()],
    }
}

#[test]
fn new_peer_info_has_version_one_and_no_capabilities() {
    let p = PeerInfo::new(PeerId::new([1u8; 32]), "127.0.0.1:30303".to_string());
    assert!(p.id == PeerId::new([1u8; 32]));
    assert_eq!(p.address, "127.0.0.1:30303");
    assert_eq!(p.version, 1);
    assert!(p.capabilities.is_empty());
    assert!(p.last_seen > 0);
}

#[test]
fn update_last_seen_keeps_other_fields() {
    let mut p = info(2, "a:1");
    p.update_last_seen();
    assert!(p.last_seen >= 100);
    assert!(p.id == PeerId::new([2u8; 32]));
    assert_eq!(p.address, "a:1");
    assert_eq!(p.version, 1);
    assert_eq!(p.capabilities, vec!["basic".to_string()]);
}

#[test]
fn same_as_compares_every_field() {
    let a = info(3, "a:1");
    let b = info(3, "a:1");
    assert!(a.same_as(&b));
    let mut c = info(3, "a:1");
    c.last_seen = 101;
    assert!(!a.same_as(&c));
    let mut d = info(3, "a:1");
    d.capabilities.push("extra".to_string());
    assert!(!a.same_as(&d));
    assert!(!a.same_as(&info(3, "a:2")));
    assert!(!a.same_as(&info(4, "a:1")));
}

#[test]
fn peer_info_clone_is_the_same() {
    let a = info(5, "b:2");
    assert!(a.clone().same_as(&a));
    let list = vec![info(1, "x"), info(2, "y")];
    let copy = clone_peer_infos(&list);
    assert_eq!(copy.len(), 2);
    assert!(copy[0].same_as(&list[0]));
    assert!(copy[1].same_as(&list[1]));
}

#[test]
fn string_helpers() {
    let a = vec!["x".to_string(), "yz".to_string()];
    let b = clone_strings(&a);
    assert_eq!(a, b);
    assert!(string_lists_equal(&a, &b));
    assert!(!string_lists_equal(&a, &vec!["x".to_string()]));
    assert!(!string_lists_equal(&a, &vec!["x".to_string(), "y".to_string()]));
    assert!(strings_equal(&"abc".to_string(), &"abc".to_string()));
    assert!(!strings_equal(&"abc".to_string(), &"abd".to_string()));
}

#[test]
fn new_connection_is_connected_and_clean() {
    let c = PeerConnection::new(info(6, "c:3"), false);
    assert!(c.connected);
    assert_eq!(c.failure_count, 0);
    assert_eq!(c.last_ping_nonce, None);
    assert_eq!(c.ping_rtt_ms, None);
    assert!(!c.outbound);
    assert!(c.info.same_as(&info(6, "c:3")));
}

#[test]
fn record_failure_counts_up() {
    let mut c = PeerConnection::new(info(7, "d:4"), true);
    assert_eq!(c.record_failure(), 1);
    assert_eq!(c.record_failure(), 2);
    assert_eq!(c.failure_count, 2);
    assert!(c.connected);
}

#[test]
fn timeout_is_strictly_more_than_the_limit() {
    let mut c = PeerConnection::new(info(8, "e:5"), true);
    c.last_activity = 1000;
    assert!(!c.is_timed_out_at(1120, 120));
    assert!(c.is_timed_out_at(1121, 120));
    assert!(!c.is_timed_out_at(900, 120));
    assert!(!c.is_timed_out_at(1000, 0));
    assert!(c.is_timed_out_at(1001, 0));
}

#[test]
fn fresh_connection_not_timed_out_against_clock() {
    let mut c = PeerConnection::new(info(9, "f:6"), true);
    assert!(!c.is_timed_out(120));
    c.last_activity = 0;
    assert!(c.is_timed_out(120));
}

#[test]
fn update_activity_moves_last_activity_to_now() {
    let mut c = PeerConnection::new(info(10, "g:7"), true);
    c.last_activity = 0;
    c.update_activity();
    assert!(c.last_activity > 0);
    assert!(c.connected);
}

#[test]
fn peer_info_new_at_is_seen_at_the_given_time() {
    let p = PeerInfo::new_at(PeerId::new([3u8; 32]), "h:1".to_string(), 4242);
    assert!(p.id == PeerId::new([3u8; 32]));
    assert_eq!(p.address, "h:1");
    assert_eq!(p.last_seen, 4242);
    assert_eq!(p.version, 1);
    assert!(p.capabilities.is_empty());
}

#[test]
fn update_last_seen_at_sets_only_last_seen() {
    let mut p = info(4, "a:9");
    p.update_last_seen_at(777);
    assert_eq!(p.last_seen, 777);
    assert!(p.id == PeerId::new([4u8; 32]));
    assert_eq!(p.address, "a:9");
    assert_eq!(p.version, 1);
    assert_eq!(p.capabilities, vec!["basic".to_string()]);
}

#[test]
fn connection_new_at_and_update_activity_at() {
    let mut c = PeerConnection::new_at(info(11, "z:1"), true, 50);
    assert_eq!(c.last_activity, 50);
    assert!(c.connected && c.outbound);
    assert_eq!(c.failure_count, 0);
    c.record_failure();
    c.update_activity_at(90);
    assert_eq!(c.last_activity, 90);
    assert_eq!(c.failure_count, 1);
    assert!(c.connected);
}

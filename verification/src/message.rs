//! The basic message types exchanged between peers.
use vstd::prelude::*;

use crate::clock::unix_now_secs;
use crate::peer::{clone_peer_infos, clone_strings, strings_view, PeerInfo, PeerInfoView};
use crate::types::PeerId;

verus! {

/// Basic message types for the P2P network
#[derive(Debug)]
pub enum Message {
    /// Ping message to check if a peer is alive
    Ping { nonce: u64, timestamp: u64 },
    /// Pong response to a ping
    Pong { nonce: u64, timestamp: u64 },
    /// Discover peers request
    DiscoverPeers,
    /// Response with known peers
    PeerList { peers: Vec<PeerInfo> },
    /// Custom application-specific message
    Custom { data: Vec<u8> },
    /// Direct message to a specific peer
    DirectMessage { target: PeerId, data: Vec<u8> },
    /// Handshake message for initial connection
    Handshake { version: u32, peer_id: PeerId, listen_port: u16, capabilities: Vec<String> },
    /// Gossip message for network-wide propagation; `ttl` decrements at each hop
    Gossip { topic: String, data: Vec<u8>, ttl: u8 },
    /// Subscribe to a topic
    Subscribe { topic: String },
    /// Unsubscribe from a topic
    Unsubscribe { topic: String },
}

/// What a [`Message`] holds, with strings as character sequences and lists as sequences.
pub enum MessageView {
    Ping { nonce: u64, timestamp: u64 },
    Pong { nonce: u64, timestamp: u64 },
    DiscoverPeers,
    PeerList { peers: Seq<PeerInfoView> },
    Custom { data: Seq<u8> },
    DirectMessage { target: PeerId, data: Seq<u8> },
    Handshake { version: u32, peer_id: PeerId, listen_port: u16, capabilities: Seq<Seq<char>> },
    Gossip { topic: Seq<char>, data: Seq<u8>, ttl: u8 },
    Subscribe { topic: Seq<char> },
    Unsubscribe { topic: Seq<char> },
}

/// The views of a list of peer infos.
pub open spec fn peer_infos_view(v: Seq<PeerInfo>) -> Seq<PeerInfoView> {
    v.map_values(|p: PeerInfo| p@)
}

impl View for Message {
    type V = MessageView;

    open spec fn view(&self) -> MessageView {
        match self {
            Message::Ping { nonce, timestamp } => MessageView::Ping {
                nonce: *nonce,
                timestamp: *timestamp,
            },
            Message::Pong { nonce, timestamp } => MessageView::Pong {
                nonce: *nonce,
                timestamp: *timestamp,
            },
            Message::DiscoverPeers => MessageView::DiscoverPeers,
            Message::PeerList { peers } => MessageView::PeerList { peers: peer_infos_view(peers@) },
            Message::Custom { data } => MessageView::Custom { data: data@ },
            Message::DirectMessage { target, data } => MessageView::DirectMessage {
                target: *target,
                data: data@,
            },
            Message::Handshake { version, peer_id, listen_port, capabilities } =>
                MessageView::Handshake {
                version: *version,
                peer_id: *peer_id,
                listen_port: *listen_port,
                capabilities: strings_view(capabilities@),
            },
            Message::Gossip { topic, data, ttl } => MessageView::Gossip {
                topic: topic@,
                data: data@,
                ttl: *ttl,
            },
            Message::Subscribe { topic } => MessageView::Subscribe { topic: topic@ },
            Message::Unsubscribe { topic } => MessageView::Unsubscribe { topic: topic@ },
        }
    }
}

impl Clone for Message {
    fn clone(&self) -> (res: Self)
        ensures
            res@ == self@,
    {
        match self {
            Message::Ping { nonce, timestamp } => Message::Ping { nonce: *nonce, timestamp: *timestamp },
            Message::Pong { nonce, timestamp } => Message::Pong { nonce: *nonce, timestamp: *timestamp },
            Message::DiscoverPeers => Message::DiscoverPeers,
            Message::PeerList { peers } => {
                let copy = clone_peer_infos(peers);
                assert(peer_infos_view(copy@) =~= peer_infos_view(peers@));
                Message::PeerList { peers: copy }
            },
            Message::Custom { data } => Message::Custom { data: data.clone() },
            Message::DirectMessage { target, data } => Message::DirectMessage {
                target: *target,
                data: data.clone(),
            },
            Message::Handshake { version, peer_id, listen_port, capabilities } => Message::Handshake {
                version: *version,
                peer_id: *peer_id,
                listen_port: *listen_port,
                capabilities: clone_strings(capabilities),
            },
            Message::Gossip { topic, data, ttl } => Message::Gossip {
                topic: topic.clone(),
                data: data.clone(),
                ttl: *ttl,
            },
            Message::Subscribe { topic } => Message::Subscribe { topic: topic.clone() },
            Message::Unsubscribe { topic } => Message::Unsubscribe { topic: topic.clone() },
        }
    }
}

/// Message with timestamp information
#[derive(Debug)]
pub struct TimestampedMessage {
    /// The actual message
    pub message: Message,
    /// Timestamp when the message was created
    pub timestamp: u64,
    /// Sender peer ID
    pub sender: PeerId,
}

impl TimestampedMessage {
    /// Create a new message stamped with `timestamp` (seconds since the Unix epoch).
    pub fn new_at(message: Message, sender: PeerId, timestamp: u64) -> (res: Self)
        ensures
            res.message@ == message@,
            res.sender == sender,
            res.timestamp == timestamp,
    {
        TimestampedMessage { message, timestamp, sender }
    }

    /// Create a new message stamped with the clock's current reading.
    pub fn new(message: Message, sender: PeerId) -> (res: Self)
        ensures
            res.message@ == message@,
            res.sender == sender,
    {
        let timestamp = unix_now_secs();
        Self::new_at(message, sender, timestamp)
    }
}

} // verus!

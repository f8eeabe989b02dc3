//! The placeholder P2P service, its discovery and message handling, and its builder.
use vstd::prelude::*;

use crate::config::{P2PConfig, P2PConfigView};
use crate::error::P2PError;
use crate::messages::envelope::CitreaMessage;
use crate::text::str_equal;
use crate::types::PeerId;

verus! {

/// Represents the type of network transport to use.
#[derive(Debug, Clone, Copy, PartialEq, Eq, Structural)]
pub enum TransportType {
    /// TCP transport - reliable but higher latency
    Tcp,
    /// UDP transport - unreliable but lower latency
    Udp,
    /// WebSocket transport - for browser compatibility
    WebSocket,
    /// WebRTC transport - for peer-to-peer browser connections
    WebRTC,
}

/// The characters of a string mapped to lowercase by `str::to_lowercase`.
pub uninterp spec fn lowercase_text(s: Seq<char>) -> Seq<char>;

/// `str::to_lowercase`; its result is named by `lowercase_text` of the characters.
#[verifier::external_body]
fn to_lowercase(s: &str) -> (res: String)
    ensures
        res@ == lowercase_text(s@),
{
    s.to_lowercase()
}

/// The transport named by a lowercase name, if any.
pub open spec fn transport_named(name: Seq<char>) -> Option<TransportType> {
    if name == "tcp"@ {
        Some(TransportType::Tcp)
    } else if name == "udp"@ {
        Some(TransportType::Udp)
    } else if name == "websocket"@ {
        Some(TransportType::WebSocket)
    } else if name == "webrtc"@ {
        Some(TransportType::WebRTC)
    } else {
        None
    }
}

impl TransportType {
    /// The transport with this lowercase name: "tcp", "udp", "websocket" or "webrtc".
    pub fn from_lowercase_name(name: &str) -> (res: Option<TransportType>)
        ensures
            res == transport_named(name@),
    {
        if str_equal(name, "tcp") {
            Some(TransportType::Tcp)
        } else if str_equal(name, "udp") {
            Some(TransportType::Udp)
        } else if str_equal(name, "websocket") {
            Some(TransportType::WebSocket)
        } else if str_equal(name, "webrtc") {
            Some(TransportType::WebRTC)
        } else {
            None
        }
    }

    /// The transport named by `name` in any letter case.
    pub fn parse(name: &str) -> (res: Option<TransportType>)
        ensures
            res == transport_named(lowercase_text(name@)),
    {
        let lower = to_lowercase(name);
        Self::from_lowercase_name(lower.as_str())
    }
}

/// A default implementation of the P2P service that does nothing.
#[derive(Debug, Clone, Copy)]
pub struct DefaultP2PService;

impl DefaultP2PService {
    /// Start; nothing to do.
    pub fn start(&self) -> (res: Result<(), P2PError>)
        ensures
            res is Ok,
    {
        Ok(())
    }

    /// Stop; nothing to do.
    pub fn stop(&self) -> (res: Result<(), P2PError>)
        ensures
            res is Ok,
    {
        Ok(())
    }

    /// Accept a message for a peer without sending it.
    pub fn send_message(&self, peer_id: PeerId, message: CitreaMessage) -> (res: Result<(), P2PError>)
        ensures
            res is Ok,
    {
        Ok(())
    }

    /// Accept a message for every peer without sending it.
    pub fn broadcast_message(&self, message: CitreaMessage) -> (res: Result<(), P2PError>)
        ensures
            res is Ok,
    {
        Ok(())
    }

    /// The connected peers: none.
    pub fn get_peers(&self) -> (res: Result<Vec<PeerId>, P2PError>)
        ensures
            res matches Ok(v) && v@.len() == 0,
    {
        Ok(Vec::new())
    }
}

/// A default implementation of peer discovery that discovers nothing.
#[derive(Debug, Clone, Copy)]
pub struct DefaultPeerDiscovery;

impl DefaultPeerDiscovery {
    /// Start; nothing to do.
    pub fn start(&self) -> (res: Result<(), P2PError>)
        ensures
            res is Ok,
    {
        Ok(())
    }

    /// Stop; nothing to do.
    pub fn stop(&self) -> (res: Result<(), P2PError>)
        ensures
            res is Ok,
    {
        Ok(())
    }

    /// The discovered peers: none.
    pub fn get_discovered_peers(&self) -> (res: Result<Vec<PeerId>, P2PError>)
        ensures
            res matches Ok(v) && v@.len() == 0,
    {
        Ok(Vec::new())
    }
}

/// Factory for peer discovery mechanisms.
#[derive(Debug, Clone, Copy)]
pub struct PeerDiscoveryFactory;

impl PeerDiscoveryFactory {
    /// Create the peer discovery mechanism: the default one.
    pub fn create() -> (res: DefaultPeerDiscovery) {
        DefaultPeerDiscovery
    }
}

/// A default message handler that accepts every message and does nothing with it.
#[derive(Debug, Clone, Copy)]
pub struct DefaultMessageHandler;

impl DefaultMessageHandler {
    /// Accept a message from a peer.
    pub fn handle_message(&self, peer_id: PeerId, message: CitreaMessage) -> (res: Result<(), P2PError>)
        ensures
            res is Ok,
    {
        Ok(())
    }
}

/// Configuration for the P2P service.
#[derive(Debug)]
pub struct P2PServiceConfig {
    /// The base P2P configuration (ports, addresses, etc.)
    pub p2p_config: P2PConfig,
    /// Whether to enable peer discovery
    pub enable_discovery: bool,
    /// The type of transport to use (TCP, UDP, etc.)
    pub transport_type: TransportType,
}

/// Builder for creating P2P service instances, with discovery on and TCP by default.
#[derive(Debug)]
pub struct P2PServiceBuilder {
    /// The configuration being built
    pub config: P2PServiceConfig,
}

impl P2PServiceBuilder {
    /// Create a new builder with default values
    pub fn new(p2p_config: P2PConfig) -> (res: Self)
        ensures
            res.config.p2p_config@ == p2p_config@,
            res.config.enable_discovery,
            res.config.transport_type == TransportType::Tcp,
    {
        P2PServiceBuilder {
            config: P2PServiceConfig { p2p_config, enable_discovery: true, transport_type: TransportType::Tcp },
        }
    }

    /// Enable or disable peer discovery
    pub fn with_discovery(self, enable: bool) -> (res: Self)
        ensures
            res.config.p2p_config@ == self.config.p2p_config@,
            res.config.enable_discovery == enable,
            res.config.transport_type == self.config.transport_type,
    {
        let mut b = self;
        b.config.enable_discovery = enable;
        b
    }

    /// Set the transport type
    pub fn with_transport(self, transport_type: TransportType) -> (res: Self)
        ensures
            res.config.p2p_config@ == self.config.p2p_config@,
            res.config.enable_discovery == self.config.enable_discovery,
            res.config.transport_type == transport_type,
    {
        let mut b = self;
        b.config.transport_type = transport_type;
        b
    }

    /// Build the P2P service: the default service.
    pub fn build(self) -> (res: DefaultP2PService) {
        DefaultP2PService
    }
}

} // verus!

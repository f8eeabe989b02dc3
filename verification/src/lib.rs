//! A peer-to-peer node for the Citrea network: peers and their messages, the
//! Citrea message types, and block synchronisation.
pub mod clock;
pub mod config;
pub mod error;
pub mod fibonacci;
pub mod message;
pub mod messages;
pub mod network;
pub mod p2p_service;
pub mod peer;
pub mod random;
pub mod sync;
pub mod text;
pub mod types;

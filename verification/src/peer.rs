//! Peers and the connections held to them.
use vstd::prelude::*;

use crate::clock::unix_now_secs;
use crate::types::PeerId;

verus! {

/// The view of a list of strings: the characters of each.
pub open spec fn strings_view(v: Seq<String>) -> Seq<Seq<char>> {
    v.map_values(|s: String| s@)
}

/// Copy a list of strings, keeping each string's characters.
pub fn clone_strings(v: &Vec<String>) -> (res: Vec<String>)
    ensures
        strings_view(res@) == strings_view(v@),
{
    let mut res: Vec<String> = Vec::new();
    let mut i: usize = 0;
    while i < v.len()
        invariant
            0 <= i <= v.len(),
            res@.len() == i,
            forall|j: int| 0 <= j < i ==> res@[j]@ == v@[j]@,
        decreases v.len() - i,
    {
        res.push(v[i].clone());
        i = i + 1;
    }
    assert(strings_view(res@) =~= strings_view(v@));
    res
}

/// Information about a peer
#[derive(Debug)]
pub struct PeerInfo {
    /// Peer ID
    pub id: PeerId,
    /// Network address (IP:port)
    pub address: String,
    /// Last seen timestamp
    pub last_seen: u64,
    /// Protocol version
    pub version: u32,
    /// Capabilities/features supported by this peer
    pub capabilities: Vec<String>,
}

/// What a [`PeerInfo`] holds, with its strings as character sequences.
pub struct PeerInfoView {
    pub id: PeerId,
    pub address: Seq<char>,
    pub last_seen: u64,
    pub version: u32,
    pub capabilities: Seq<Seq<char>>,
}

impl View for PeerInfo {
    type V = PeerInfoView;

    open spec fn view(&self) -> PeerInfoView {
        PeerInfoView {
            id: self.id,
            address: self.address@,
            last_seen: self.last_seen,
            version: self.version,
            capabilities: strings_view(self.capabilities@),
        }
    }
}

impl Clone for PeerInfo {
    fn clone(&self) -> (res: Self)
        ensures
            res@ == self@,
    {
        PeerInfo {
            id: self.id,
            address: self.address.clone(),
            last_seen: self.last_seen,
            version: self.version,
            capabilities: clone_strings(&self.capabilities),
        }
    }
}

/// Copy a list of peer infos, keeping what each holds.
pub fn clone_peer_infos(v: &Vec<PeerInfo>) -> (res: Vec<PeerInfo>)
    ensures
        res@.len() == v@.len(),
        forall|j: int| 0 <= j < v@.len() ==> #[trigger] res@[j]@ == v@[j]@,
{
    let mut res: Vec<PeerInfo> = Vec::new();
    let mut i: usize = 0;
    while i < v.len()
        invariant
            0 <= i <= v.len(),
            res@.len() == i,
            forall|j: int| 0 <= j < i ==> #[trigger] res@[j]@ == v@[j]@,
        decreases v.len() - i,
    {
        res.push(v[i].clone());
        i = i + 1;
    }
    res
}

/// Compare two strings character by character.
pub fn strings_equal(a: &String, b: &String) -> (res: bool)
    ensures
        res == (a@ == b@),
{
    *a == *b
}

/// Compare two lists of strings element by element.
pub fn string_lists_equal(a: &Vec<String>, b: &Vec<String>) -> (res: bool)
    ensures
        res == (strings_view(a@) == strings_view(b@)),
{
    if a.len() != b.len() {
        assert(strings_view(a@).len() != strings_view(b@).len());
        return false;
    }
    let mut i: usize = 0;
    while i < a.len()
        invariant
            0 <= i <= a.len(),
            a.len() == b.len(),
            forall|j: int| 0 <= j < i ==> a@[j]@ == b@[j]@,
        decreases a.len() - i,
    {
        if !strings_equal(&a[i], &b[i]) {
            assert(strings_view(a@)[i as int] != strings_view(b@)[i as int]);
            return false;
        }
        i = i + 1;
    }
    assert(strings_view(a@) =~= strings_view(b@));
    true
}

/// A fresh peer info for `id` at `address`, seen at `now`, at protocol version
/// 1, with no capabilities.
pub open spec fn fresh_peer_info(id: PeerId, address: Seq<char>, now: u64) -> PeerInfoView {
    PeerInfoView { id, address, last_seen: now, version: 1, capabilities: Seq::empty() }
}

/// A peer info with its last seen time set to `now` and nothing else changed.
pub open spec fn seen_at(p: PeerInfoView, now: u64) -> PeerInfoView {
    PeerInfoView { last_seen: now, ..p }
}

impl PeerInfo {
    /// Create a new peer info, seen at time `now`, at protocol version 1, with no capabilities.
    pub fn new_at(id: PeerId, address: String, now: u64) -> (res: Self)
        ensures
            res@ == fresh_peer_info(id, address@, now),
            res.capabilities@.len() == 0,
    {
        let res = PeerInfo { id, address, last_seen: now, version: 1, capabilities: Vec::new() };
        assert(strings_view(res.capabilities@) =~= Seq::<Seq<char>>::empty());
        res
    }

    /// Create a new peer info, seen now, at protocol version 1, with no capabilities.
    pub fn new(id: PeerId, address: String) -> (res: Self)
        ensures
            res.id == id,
            res.address@ == address@,
            res.version == 1,
            res.capabilities@.len() == 0,
            exists|now: u64| res@ == #[trigger] fresh_peer_info(id, address@, now),
    {
        let now = unix_now_secs();
        Self::new_at(id, address, now)
    }

    /// Set the last seen timestamp to `now`; nothing else changes.
    pub fn update_last_seen_at(&mut self, now: u64)
        ensures
            final(self)@ == seen_at(old(self)@, now),
    {
        self.last_seen = now;
    }

    /// Update the last seen timestamp to the clock's reading; nothing else changes.
    pub fn update_last_seen(&mut self)
        ensures
            final(self).id == old(self).id,
            final(self).address@ == old(self).address@,
            final(self).version == old(self).version,
            strings_view(final(self).capabilities@) == strings_view(old(self).capabilities@),
            exists|now: u64| final(self)@ == #[trigger] seen_at(old(self)@, now),
    {
        let now = unix_now_secs();
        self.update_last_seen_at(now);
    }

    /// Whether two peer infos hold the same values in every field.
    pub fn same_as(&self, other: &PeerInfo) -> (res: bool)
        ensures
            res == (self@ == other@),
    {
        self.id == other.id && strings_equal(&self.address, &other.address) && self.last_seen
            == other.last_seen && self.version == other.version && string_lists_equal(
            &self.capabilities,
            &other.capabilities,
        )
    }
}

/// Represents a connection to a peer
#[derive(Debug)]
pub struct PeerConnection {
    /// Peer information
    pub info: PeerInfo,
    /// Connection status
    pub connected: bool,
    /// Last activity timestamp
    pub last_activity: u64,
    /// Number of failed attempts to connect/communicate
    pub failure_count: u32,
    /// Last ping nonce (for matching with pong)
    pub last_ping_nonce: Option<u64>,
    /// Latest ping round-trip time in milliseconds
    pub ping_rtt_ms: Option<u64>,
    /// Outbound connection (we initiated) or inbound (peer initiated)
    pub outbound: bool,
}

/// What a [`PeerConnection`] holds.
pub struct PeerConnectionView {
    pub info: PeerInfoView,
    pub connected: bool,
    pub last_activity: u64,
    pub failure_count: u32,
    pub last_ping_nonce: Option<u64>,
    pub ping_rtt_ms: Option<u64>,
    pub outbound: bool,
}

impl View for PeerConnection {
    type V = PeerConnectionView;

    open spec fn view(&self) -> PeerConnectionView {
        PeerConnectionView {
            info: self.info@,
            connected: self.connected,
            last_activity: self.last_activity,
            failure_count: self.failure_count,
            last_ping_nonce: self.last_ping_nonce,
            ping_rtt_ms: self.ping_rtt_ms,
            outbound: self.outbound,
        }
    }
}

/// Whether a connection whose last activity was at `last_activity` has timed out
/// at time `now`: strictly more than `timeout_seconds` have passed.
pub open spec fn spec_timed_out(last_activity: u64, now: u64, timeout_seconds: u64) -> bool {
    now - last_activity > timeout_seconds
}

/// A fresh connection with `info`, connected at time `now`, with no failures
/// and no ping.
pub open spec fn fresh_peer_connection(info: PeerInfoView, outbound: bool, now: u64) -> PeerConnectionView {
    PeerConnectionView {
        info,
        connected: true,
        last_activity: now,
        failure_count: 0,
        last_ping_nonce: None,
        ping_rtt_ms: None,
        outbound,
    }
}

/// A connection with its last activity set to `now` and nothing else changed.
pub open spec fn active_at(c: PeerConnectionView, now: u64) -> PeerConnectionView {
    PeerConnectionView { last_activity: now, ..c }
}

impl PeerConnection {
    /// Create a new, connected peer connection whose last activity is `now`.
    pub fn new_at(info: PeerInfo, outbound: bool, now: u64) -> (res: Self)
        ensures
            res@ == fresh_peer_connection(info@, outbound, now),
    {
        PeerConnection {
            info,
            connected: true,
            last_activity: now,
            failure_count: 0,
            last_ping_nonce: None,
            ping_rtt_ms: None,
            outbound,
        }
    }

    /// Create a new, connected peer connection whose last activity is now.
    pub fn new(info: PeerInfo, outbound: bool) -> (res: Self)
        ensures
            res.info@ == info@,
            res.connected,
            res.failure_count == 0,
            res.last_ping_nonce is None,
            res.ping_rtt_ms is None,
            res.outbound == outbound,
            exists|now: u64| res@ == #[trigger] fresh_peer_connection(info@, outbound, now),
    {
        let now = unix_now_secs();
        Self::new_at(info, outbound, now)
    }

    /// Set the last activity timestamp to `now`; nothing else changes.
    pub fn update_activity_at(&mut self, now: u64)
        ensures
            final(self)@ == active_at(old(self)@, now),
    {
        self.last_activity = now;
    }

    /// Update the last activity timestamp to the clock's reading; nothing else changes.
    pub fn update_activity(&mut self)
        ensures
            final(self)@ == (PeerConnectionView { last_activity: final(self).last_activity, ..old(self)@ }),
            exists|now: u64| final(self)@ == #[trigger] active_at(old(self)@, now),
    {
        let now = unix_now_secs();
        self.update_activity_at(now);
    }

    /// Record a failure and return the new failure count.
    pub fn record_failure(&mut self) -> (res: u32)
        requires
            old(self).failure_count < u32::MAX,
        ensures
            res == old(self).failure_count + 1,
            final(self)@ == (PeerConnectionView { failure_count: res, ..old(self)@ }),
    {
        self.failure_count = self.failure_count + 1;
        self.failure_count
    }

    /// Whether the connection has timed out at time `now`.
    pub fn is_timed_out_at(&self, now: u64, timeout_seconds: u64) -> (res: bool)
        ensures
            res == spec_timed_out(self.last_activity, now, timeout_seconds),
    {
        now >= self.last_activity && now - self.last_activity > timeout_seconds
    }

    /// Check, against the clock, whether the connection has timed out.
    pub fn is_timed_out(&self, timeout_seconds: u64) -> (res: bool)
        ensures
            exists|now: u64| res == #[trigger] spec_timed_out(self.last_activity, now, timeout_seconds),
    {
        let now = unix_now_secs();
        self.is_timed_out_at(now, timeout_seconds)
    }
}

} // verus!

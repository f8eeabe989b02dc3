//! The peer table of a node and its reactions to messages from peers.
//!
//! Everything here is a step of a state machine: the node's table of
//! connections, the peers it knows of, and the messages it has queued for
//! sending. The clock and the random source are read at the edges only; each
//! step that needs them has a variant that takes their readings as arguments.
use vstd::prelude::*;

use crate::clock::unix_now_secs;
use crate::config::{P2PConfig, P2PConfigView};
use crate::error::{unit_result_view, P2PError, P2PErrorView};
use crate::message::{Message, MessageView};
use crate::peer::{spec_timed_out, PeerConnection, PeerConnectionView, PeerInfo, PeerInfoView};
use crate::random::random_u64;
use crate::types::PeerId;

verus! {

/// A message queued for one peer.
#[derive(Debug)]
pub struct Outgoing {
    /// The peer the message is for
    pub target: PeerId,
    /// The message
    pub message: Message,
}

/// What an [`Outgoing`] holds.
pub struct OutgoingView {
    pub target: PeerId,
    pub message: MessageView,
}

impl View for Outgoing {
    type V = OutgoingView;

    open spec fn view(&self) -> OutgoingView {
        OutgoingView { target: self.target, message: self.message@ }
    }
}

/// The whole state of a node, as seen by the contracts.
pub struct NetworkView {
    pub local_id: PeerId,
    pub config: P2PConfigView,
    /// The connection table, in the order in which entries were made
    pub peers: Seq<PeerConnectionView>,
    /// The peers known of, in the order in which they became known
    pub known: Seq<PeerInfoView>,
    /// The messages queued for sending, oldest first
    pub outbox: Seq<OutgoingView>,
    pub running: bool,
    pub shutdown: bool,
}

// ---------------------------------------------------------------------------
// The connection table as a sequence

/// Whether the table holds an entry for `id`.
pub open spec fn has_peer(peers: Seq<PeerConnectionView>, id: PeerId) -> bool {
    exists|i: int| 0 <= i < peers.len() && #[trigger] peers[i].info.id == id
}

/// The position of the entry for `id` (meaningful when the table holds one).
pub open spec fn peer_index(peers: Seq<PeerConnectionView>, id: PeerId) -> int {
    choose|i: int| 0 <= i < peers.len() && #[trigger] peers[i].info.id == id
}

/// No two entries of the table are for the same peer.
pub open spec fn ids_unique(peers: Seq<PeerConnectionView>) -> bool {
    forall|i: int, j: int|
        0 <= i < peers.len() && 0 <= j < peers.len() && i != j ==> #[trigger] peers[i].info.id
            != #[trigger] peers[j].info.id
}

/// The table as a map from peer to connection.
pub open spec fn peer_map(peers: Seq<PeerConnectionView>) -> Map<PeerId, PeerConnectionView> {
    Map::new(|id: PeerId| has_peer(peers, id), |id: PeerId| peers[peer_index(peers, id)])
}

/// In a table without repeated peers, the entry for a peer is the one at its position.
pub proof fn lemma_peer_index_unique(peers: Seq<PeerConnectionView>, i: int)
    requires
        ids_unique(peers),
        0 <= i < peers.len(),
    ensures
        has_peer(peers, peers[i].info.id),
        peer_index(peers, peers[i].info.id) == i,
{
    let id = peers[i].info.id;
    assert(peers[i].info.id == id);
    let j = peer_index(peers, id);
    assert(0 <= j < peers.len() && peers[j].info.id == id);
}

/// A fresh connection made at time `now`.
pub open spec fn fresh_connection(info: PeerInfoView, outbound: bool, now: u64) -> PeerConnectionView {
    PeerConnectionView {
        info,
        connected: true,
        last_activity: now,
        failure_count: 0,
        last_ping_nonce: None,
        ping_rtt_ms: None,
        outbound,
    }
}

/// Add `info` to the known peers unless it is already known.
pub open spec fn known_insert(known: Seq<PeerInfoView>, info: PeerInfoView) -> Seq<PeerInfoView> {
    if known.contains(info) {
        known
    } else {
        known.push(info)
    }
}

/// The infos of the connected entries, in table order.
pub open spec fn connected_infos(peers: Seq<PeerConnectionView>) -> Seq<PeerInfoView>
    decreases peers.len(),
{
    if peers.len() == 0 {
        Seq::empty()
    } else {
        let rest = connected_infos(peers.drop_last());
        if peers.last().connected {
            rest.push(peers.last().info)
        } else {
            rest
        }
    }
}

/// The peers of the connected entries other than `except`, in table order.
pub open spec fn connected_ids_except(peers: Seq<PeerConnectionView>, except: Option<PeerId>) -> Seq<
    PeerId,
>
    decreases peers.len(),
{
    if peers.len() == 0 {
        Seq::empty()
    } else {
        let rest = connected_ids_except(peers.drop_last(), except);
        if peers.last().connected && except != Some(peers.last().info.id) {
            rest.push(peers.last().info.id)
        } else {
            rest
        }
    }
}

/// One message for each of `targets`.
pub open spec fn addressed(targets: Seq<PeerId>, message: MessageView) -> Seq<OutgoingView> {
    targets.map_values(|t: PeerId| OutgoingView { target: t, message })
}

// ---------------------------------------------------------------------------
// The steps

/// Connecting to a peer at time `now`.
pub open spec fn connect_step(s: NetworkView, info: PeerInfoView, now: u64) -> (
    NetworkView,
    Result<(), P2PErrorView>,
) {
    if has_peer(s.peers, info.id) {
        (s, Err(P2PErrorView::AlreadyConnected(info.id)))
    } else if s.peers.len() >= s.config.max_connections {
        (s, Err(P2PErrorView::MaxConnectionsReached))
    } else {
        (
            NetworkView {
                peers: s.peers.push(fresh_connection(info, true, now)),
                known: known_insert(s.known, info),
                ..s
            },
            Ok(()),
        )
    }
}

/// Marking a peer's connection as closed.
pub open spec fn disconnect_step(s: NetworkView, id: PeerId) -> (NetworkView, Result<(), P2PErrorView>) {
    if has_peer(s.peers, id) {
        let i = peer_index(s.peers, id);
        (
            NetworkView {
                peers: s.peers.update(i, PeerConnectionView { connected: false, ..s.peers[i] }),
                ..s
            },
            Ok(()),
        )
    } else {
        (s, Err(P2PErrorView::PeerNotFound(id)))
    }
}

/// Queueing a message for one peer.
pub open spec fn send_step(s: NetworkView, id: PeerId, message: MessageView) -> (
    NetworkView,
    Result<(), P2PErrorView>,
) {
    if !has_peer(s.peers, id) {
        (s, Err(P2PErrorView::PeerNotFound(id)))
    } else if !s.peers[peer_index(s.peers, id)].connected {
        (s, Err(P2PErrorView::Network("Peer not connected"@)))
    } else {
        (
            NetworkView { outbox: s.outbox.push(OutgoingView { target: id, message }), ..s },
            Ok(()),
        )
    }
}

/// Queueing a message for every connected peer.
pub open spec fn broadcast_step(s: NetworkView, message: MessageView) -> NetworkView {
    NetworkView {
        outbox: s.outbox + addressed(connected_ids_except(s.peers, None), message),
        ..s
    }
}

/// Recording activity from a peer at time `now`, if the table holds it.
pub open spec fn touch_step(s: NetworkView, id: PeerId, now: u64) -> NetworkView {
    if has_peer(s.peers, id) {
        let i = peer_index(s.peers, id);
        NetworkView {
            peers: s.peers.update(i, PeerConnectionView { last_activity: now, ..s.peers[i] }),
            ..s
        }
    } else {
        s
    }
}

/// Answering a ping: a pong with the same nonce, stamped `now`.
pub open spec fn ping_step(s: NetworkView, peer: PeerId, nonce: u64, now: u64) -> (
    NetworkView,
    Result<(), P2PErrorView>,
) {
    send_step(s, peer, MessageView::Pong { nonce, timestamp: now })
}

/// The round-trip time in milliseconds of a ping answered at `now` by a pong
/// stamped `timestamp`: the seconds between them times 1000, saturating at
/// `u64::MAX`; a pong stamped later than `now` counts as no time elapsed.
pub open spec fn rtt_ms(now: u64, timestamp: u64) -> u64 {
    if timestamp > now {
        0
    } else if (now - timestamp) * 1000 > u64::MAX {
        u64::MAX
    } else {
        ((now - timestamp) * 1000) as u64
    }
}

/// Taking a pong: when it answers the last ping sent to the peer, record the
/// round-trip time and forget the ping; otherwise nothing changes.
pub open spec fn pong_step(s: NetworkView, peer: PeerId, nonce: u64, timestamp: u64, now: u64) -> NetworkView {
    if has_peer(s.peers, peer) && s.peers[peer_index(s.peers, peer)].last_ping_nonce == Some(nonce) {
        let i = peer_index(s.peers, peer);
        NetworkView {
            peers: s.peers.update(
                i,
                PeerConnectionView {
                    ping_rtt_ms: Some(rtt_ms(now, timestamp)),
                    last_ping_nonce: None,
                    ..s.peers[i]
                },
            ),
            ..s
        }
    } else {
        s
    }
}

/// Answering a request for peers: the list of connected peers.
pub open spec fn discover_step(s: NetworkView, peer: PeerId) -> (NetworkView, Result<(), P2PErrorView>) {
    send_step(s, peer, MessageView::PeerList { peers: connected_infos(s.peers) })
}

/// The known peers after taking in `list`, in order: each info that is not yet
/// known and is not about `local` is added.
pub open spec fn add_known(known: Seq<PeerInfoView>, list: Seq<PeerInfoView>, local: PeerId) -> Seq<
    PeerInfoView,
>
    decreases list.len(),
{
    if list.len() == 0 {
        known
    } else {
        let before = add_known(known, list.drop_last(), local);
        let p = list.last();
        if before.contains(p) || p.id == local {
            before
        } else {
            before.push(p)
        }
    }
}

/// Taking a list of peers from a peer.
pub open spec fn peer_list_step(s: NetworkView, list: Seq<PeerInfoView>) -> NetworkView {
    NetworkView { known: add_known(s.known, list, s.local_id), ..s }
}

/// Taking a direct message: kept when it is for us, otherwise forwarded to its target.
pub open spec fn direct_step(s: NetworkView, target: PeerId, data: Seq<u8>) -> (
    NetworkView,
    Result<(), P2PErrorView>,
) {
    if target == s.local_id {
        (s, Ok(()))
    } else {
        send_step(s, target, MessageView::DirectMessage { target, data })
    }
}

/// The table after a handshake on the entry of `peer` (which the table holds)
/// announcing `info`: the entry is re-keyed under `info.id` when that differs,
/// keeping the address, connection state, last activity and direction and
/// clearing failures and pings; an entry already held for `info.id` is
/// replaced. When the id is unchanged only the info is replaced.
pub open spec fn rekey_peers(peers: Seq<PeerConnectionView>, peer: PeerId, info: PeerInfoView) -> Seq<
    PeerConnectionView,
> {
    let i = peer_index(peers, peer);
    let c = peers[i];
    if peer != info.id {
        let nc = PeerConnectionView {
            info,
            connected: c.connected,
            last_activity: c.last_activity,
            failure_count: 0,
            last_ping_nonce: None,
            ping_rtt_ms: None,
            outbound: c.outbound,
        };
        if has_peer(peers, info.id) {
            peers.update(peer_index(peers, info.id), nc).remove(i)
        } else {
            peers.update(i, nc)
        }
    } else {
        peers.update(i, PeerConnectionView { info, ..c })
    }
}

/// Taking a handshake at time `now` from the entry of `peer`, announcing
/// `sender` as its id. Then, when the table holds an inbound entry for
/// `sender`, our own handshake is sent back to it.
pub open spec fn handshake_step(
    s: NetworkView,
    peer: PeerId,
    version: u32,
    sender: PeerId,
    capabilities: Seq<Seq<char>>,
    now: u64,
) -> (NetworkView, Result<(), P2PErrorView>) {
    let s1 = if has_peer(s.peers, peer) {
        let info = PeerInfoView {
            id: sender,
            address: s.peers[peer_index(s.peers, peer)].info.address,
            last_seen: now,
            version,
            capabilities,
        };
        NetworkView {
            peers: rekey_peers(s.peers, peer, info),
            known: known_insert(s.known, info),
            ..s
        }
    } else {
        s
    };
    if has_peer(s1.peers, sender) && !s1.peers[peer_index(s1.peers, sender)].outbound {
        send_step(
            s1,
            sender,
            MessageView::Handshake {
                version: s1.config.protocol_version,
                peer_id: s1.local_id,
                listen_port: s1.config.port,
                capabilities: s1.config.capabilities,
            },
        )
    } else {
        (s1, Ok(()))
    }
}

/// Taking gossip from `peer`: with time-to-live left, it is forwarded with one
/// less to every other connected peer.
pub open spec fn gossip_step(s: NetworkView, peer: PeerId, topic: Seq<char>, data: Seq<u8>, ttl: u8) -> NetworkView {
    if ttl > 0 {
        NetworkView {
            outbox: s.outbox + addressed(
                connected_ids_except(s.peers, Some(peer)),
                MessageView::Gossip { topic, data, ttl: (ttl - 1) as u8 },
            ),
            ..s
        }
    } else {
        s
    }
}

/// Taking any message from `peer` at time `now`: the peer's activity is
/// recorded, then the message is handled according to its kind.
pub open spec fn message_step(s: NetworkView, peer: PeerId, message: MessageView, now: u64) -> (
    NetworkView,
    Result<(), P2PErrorView>,
) {
    let t = touch_step(s, peer, now);
    match message {
        MessageView::Ping { nonce, timestamp } => ping_step(t, peer, nonce, now),
        MessageView::Pong { nonce, timestamp } => (pong_step(t, peer, nonce, timestamp, now), Ok(())),
        MessageView::DiscoverPeers => discover_step(t, peer),
        MessageView::PeerList { peers } => (peer_list_step(t, peers), Ok(())),
        MessageView::Custom { data } => (t, Ok(())),
        MessageView::DirectMessage { target, data } => direct_step(t, target, data),
        MessageView::Handshake { version, peer_id, listen_port, capabilities } => handshake_step(
            t,
            peer,
            version,
            peer_id,
            capabilities,
            now,
        ),
        MessageView::Gossip { topic, data, ttl } => (gossip_step(t, peer, topic, data, ttl), Ok(())),
        MessageView::Subscribe { topic } => (t, Ok(())),
        MessageView::Unsubscribe { topic } => (t, Ok(())),
    }
}

/// Stopping a started network: every connection is marked as closed.
pub open spec fn stop_step(s: NetworkView) -> NetworkView {
    if s.running {
        NetworkView {
            peers: s.peers.map_values(|c: PeerConnectionView| PeerConnectionView { connected: false, ..c }),
            running: false,
            shutdown: true,
            ..s
        }
    } else {
        s
    }
}

/// The info made for a bootstrap node at `address`, with the drawn `id`, seen at `seen`.
pub open spec fn bootstrap_info(id: PeerId, address: Seq<char>, seen: u64) -> PeerInfoView {
    PeerInfoView { id, address, last_seen: seen, version: 1, capabilities: Seq::empty() }
}

/// Connecting to each of `nodes` in turn, the i-th with the drawn id `ids[i]`,
/// seen at `seen[i]` and connected at `nows[i]`; failures are passed over.
pub open spec fn bootstrap_fold(
    s: NetworkView,
    nodes: Seq<Seq<char>>,
    ids: Seq<PeerId>,
    seen: Seq<u64>,
    nows: Seq<u64>,
) -> NetworkView
    decreases nodes.len(),
{
    if nodes.len() == 0 {
        s
    } else {
        let n = (nodes.len() - 1) as int;
        let before = bootstrap_fold(s, nodes.drop_last(), ids, seen, nows);
        connect_step(before, bootstrap_info(ids[n], nodes[n], seen[n]), nows[n]).0
    }
}

/// Starting the network with the drawn ids and clock readings: when not
/// running, it is marked running and connects to its bootstrap nodes.
pub open spec fn start_step(s: NetworkView, ids: Seq<PeerId>, seen: Seq<u64>, nows: Seq<u64>) -> NetworkView {
    if s.running {
        s
    } else {
        bootstrap_fold(
            NetworkView { running: true, shutdown: false, ..s },
            s.config.bootstrap_nodes,
            ids,
            seen,
            nows,
        )
    }
}

/// Whether a connection is due for a ping at `now`: connected, not timed out,
/// and idle for more than half the ping interval.
pub open spec fn due_for_ping(c: PeerConnectionView, now: u64, interval: u64, timeout: u64) -> bool {
    &&& c.connected
    &&& !spec_timed_out(c.last_activity, now, timeout)
    &&& now - c.last_activity > interval / 2
}

/// One entry after a maintenance pass at `now`, with `nonce` drawn for it: a
/// timed-out connection is closed; one due for a ping records the nonce.
pub open spec fn tick_entry(c: PeerConnectionView, now: u64, interval: u64, timeout: u64, nonce: u64) -> PeerConnectionView {
    if c.connected && spec_timed_out(c.last_activity, now, timeout) {
        PeerConnectionView { connected: false, ..c }
    } else if due_for_ping(c, now, interval, timeout) {
        PeerConnectionView { last_ping_nonce: Some(nonce), ..c }
    } else {
        c
    }
}

/// The pings of a maintenance pass at `now`, in table order: one for each
/// entry due for a ping, carrying the nonce drawn for it and stamped `now`.
pub open spec fn tick_pings(
    peers: Seq<PeerConnectionView>,
    now: u64,
    interval: u64,
    timeout: u64,
    nonces: Seq<u64>,
) -> Seq<OutgoingView>
    decreases peers.len(),
{
    if peers.len() == 0 {
        Seq::empty()
    } else {
        let n = (peers.len() - 1) as int;
        let rest = tick_pings(peers.drop_last(), now, interval, timeout, nonces);
        if due_for_ping(peers[n], now, interval, timeout) {
            rest.push(
                OutgoingView {
                    target: peers[n].info.id,
                    message: MessageView::Ping { nonce: nonces[n], timestamp: now },
                },
            )
        } else {
            rest
        }
    }
}

/// A maintenance pass at `now` with `nonces[i]` drawn for the i-th entry.
pub open spec fn tick_step(s: NetworkView, now: u64, nonces: Seq<u64>) -> NetworkView {
    NetworkView {
        peers: Seq::new(
            s.peers.len(),
            |i: int|
                tick_entry(s.peers[i], now, s.config.ping_interval, s.config.connection_timeout, nonces[i]),
        ),
        ..s
    }
}

/// The fold over bootstrap nodes reads the drawn values only at the positions of the nodes.
pub proof fn lemma_bootstrap_fold_agree(
    s: NetworkView,
    nodes: Seq<Seq<char>>,
    ids1: Seq<PeerId>,
    seen1: Seq<u64>,
    nows1: Seq<u64>,
    ids2: Seq<PeerId>,
    seen2: Seq<u64>,
    nows2: Seq<u64>,
)
    requires
        forall|k: int| 0 <= k < nodes.len() ==> ids1[k] == ids2[k] && seen1[k] == seen2[k] && nows1[k]
            == nows2[k],
    ensures
        bootstrap_fold(s, nodes, ids1, seen1, nows1) == bootstrap_fold(s, nodes, ids2, seen2, nows2),
    decreases nodes.len(),
{
    if nodes.len() > 0 {
        lemma_bootstrap_fold_agree(s, nodes.drop_last(), ids1, seen1, nows1, ids2, seen2, nows2);
    }
}

/// The pings of a maintenance pass read the drawn nonces only at the positions of the entries.
pub proof fn lemma_tick_pings_agree(
    peers: Seq<PeerConnectionView>,
    now: u64,
    interval: u64,
    timeout: u64,
    nonces1: Seq<u64>,
    nonces2: Seq<u64>,
)
    requires
        forall|k: int| 0 <= k < peers.len() ==> nonces1[k] == nonces2[k],
    ensures
        tick_pings(peers, now, interval, timeout, nonces1) == tick_pings(
            peers,
            now,
            interval,
            timeout,
            nonces2,
        ),
    decreases peers.len(),
{
    if peers.len() > 0 {
        lemma_tick_pings_agree(peers.drop_last(), now, interval, timeout, nonces1, nonces2);
    }
}

/// Replacing an entry by one for a peer held nowhere else keeps the peers distinct.
pub proof fn lemma_unique_update(peers: Seq<PeerConnectionView>, i: int, c: PeerConnectionView)
    requires
        ids_unique(peers),
        0 <= i < peers.len(),
        forall|j: int| 0 <= j < peers.len() && j != i ==> peers[j].info.id != c.info.id,
    ensures
        ids_unique(peers.update(i, c)),
{
    let u = peers.update(i, c);
    assert forall|a: int, b: int|
        0 <= a < u.len() && 0 <= b < u.len() && a != b implies #[trigger] u[a].info.id
            != #[trigger] u[b].info.id by {
        if a != i && b != i {
            assert(u[a] == peers[a] && u[b] == peers[b]);
        }
    }
}

/// Removing an entry keeps the peers distinct.
pub proof fn lemma_unique_remove(peers: Seq<PeerConnectionView>, i: int)
    requires
        ids_unique(peers),
        0 <= i < peers.len(),
    ensures
        ids_unique(peers.remove(i)),
{
    let u = peers.remove(i);
    assert forall|a: int, b: int|
        0 <= a < u.len() && 0 <= b < u.len() && a != b implies #[trigger] u[a].info.id
            != #[trigger] u[b].info.id by {
        let a0 = if a < i { a } else { a + 1 };
        let b0 = if b < i { b } else { b + 1 };
        assert(u[a] == peers[a0]);
        assert(u[b] == peers[b0]);
    }
}

// ---------------------------------------------------------------------------
// Laws

/// Connecting to a new peer adds exactly one entry to the table seen as a map:
/// a fresh outbound connection under the peer's id; no other entry changes.
pub proof fn law_connect_adds_one_entry(s: NetworkView, info: PeerInfoView, now: u64)
    requires
        ids_unique(s.peers),
        !has_peer(s.peers, info.id),
        s.peers.len() < s.config.max_connections,
    ensures
        peer_map(connect_step(s, info, now).0.peers) == peer_map(s.peers).insert(
            info.id,
            fresh_connection(info, true, now),
        ),
        connect_step(s, info, now).1 == Ok::<(), P2PErrorView>(()),
{
    let t = connect_step(s, info, now).0.peers;
    let c = fresh_connection(info, true, now);
    assert(t == s.peers.push(c));
    assert(ids_unique(t)) by {
        assert forall|i: int, j: int|
            0 <= i < t.len() && 0 <= j < t.len() && i != j implies #[trigger] t[i].info.id
                != #[trigger] t[j].info.id by {
            if i == s.peers.len() {
                assert(t[j] == s.peers[j]);
            } else if j == s.peers.len() {
                assert(t[i] == s.peers[i]);
            } else {
                assert(t[i] == s.peers[i] && t[j] == s.peers[j]);
            }
        }
    }
    assert forall|id: PeerId| #[trigger] peer_map(t).contains_key(id) == peer_map(s.peers).insert(
        info.id,
        c,
    ).contains_key(id) by {
        if has_peer(s.peers, id) {
            let k = peer_index(s.peers, id);
            assert(t[k] == s.peers[k]);
        }
        if id == info.id {
            assert(t[s.peers.len() as int].info.id == id);
        }
        if has_peer(t, id) && id != info.id {
            let k = peer_index(t, id);
            assert(k < s.peers.len());
            assert(s.peers[k].info.id == id);
        }
    }
    assert forall|id: PeerId| #[trigger] peer_map(t).contains_key(id) implies peer_map(t)[id]
        == peer_map(s.peers).insert(info.id, c)[id] by {
        if id == info.id {
            lemma_peer_index_unique(t, s.peers.len() as int);
        } else {
            let k = peer_index(t, id);
            assert(k < s.peers.len());
            assert(t[k] == s.peers[k]);
            lemma_peer_index_unique(t, k);
            lemma_peer_index_unique(s.peers, k);
        }
    }
    assert(peer_map(t) =~= peer_map(s.peers).insert(info.id, c));
}

/// A refused connection changes nothing: connecting to a peer already in the
/// table is answered with `AlreadyConnected`, and connecting when the table is
/// full with `MaxConnectionsReached`.
pub proof fn law_refused_connect_changes_nothing(s: NetworkView, info: PeerInfoView, now: u64)
    requires
        has_peer(s.peers, info.id) || s.peers.len() >= s.config.max_connections,
    ensures
        connect_step(s, info, now).0 == s,
        has_peer(s.peers, info.id) ==> connect_step(s, info, now).1 == Err::<(), P2PErrorView>(
            P2PErrorView::AlreadyConnected(info.id),
        ),
        !has_peer(s.peers, info.id) ==> connect_step(s, info, now).1 == Err::<(), P2PErrorView>(
            P2PErrorView::MaxConnectionsReached,
        ),
{
}

/// A peer that was connected and then disconnected is still in the table but
/// no longer among the connected peers' infos; every other entry is untouched.
pub proof fn law_disconnect_closes_only_that_peer(s: NetworkView, id: PeerId)
    requires
        ids_unique(s.peers),
        has_peer(s.peers, id),
    ensures
        ({
            let t = disconnect_step(s, id).0.peers;
            &&& has_peer(t, id)
            &&& !t[peer_index(t, id)].connected
            &&& forall|j: int| 0 <= j < t.len() && j != peer_index(s.peers, id) ==> t[j] == s.peers[j]
        }),
{
    let i = peer_index(s.peers, id);
    let t = disconnect_step(s, id).0.peers;
    assert(t[i].info.id == id);
    assert(ids_unique(t)) by {
        assert forall|a: int, b: int|
            0 <= a < t.len() && 0 <= b < t.len() && a != b implies #[trigger] t[a].info.id
                != #[trigger] t[b].info.id by {
            assert(t[a].info.id == s.peers[a].info.id);
            assert(t[b].info.id == s.peers[b].info.id);
        }
    }
    lemma_peer_index_unique(t, i);
}

/// Once a peer is disconnected, messages to it are refused with a network
/// error and nothing is queued.
pub proof fn law_send_after_disconnect_refused(s: NetworkView, id: PeerId, m: MessageView)
    requires
        ids_unique(s.peers),
        has_peer(s.peers, id),
    ensures
        ({
            let t = disconnect_step(s, id).0;
            &&& send_step(t, id, m).1 == Err::<(), P2PErrorView>(
                P2PErrorView::Network("Peer not connected"@),
            )
            &&& send_step(t, id, m).0 == t
        }),
{
    law_disconnect_closes_only_that_peer(s, id);
}

/// A ping from a connected peer is answered with a pong carrying the same
/// nonce, queued for that peer and for no one else; nothing else changes.
pub proof fn law_ping_answered_with_pong(s: NetworkView, peer: PeerId, nonce: u64, now: u64)
    requires
        has_peer(s.peers, peer),
        s.peers[peer_index(s.peers, peer)].connected,
    ensures
        ping_step(s, peer, nonce, now) == (
            NetworkView {
                outbox: s.outbox.push(
                    OutgoingView { target: peer, message: MessageView::Pong { nonce, timestamp: now } },
                ),
                ..s
            },
            Ok::<(), P2PErrorView>(()),
        ),
{
}

/// A message for a peer the table does not hold is refused with
/// `PeerNotFound`, and one for a closed connection with a network error;
/// either way nothing is queued.
pub proof fn law_send_refused_to_absent_or_closed(s: NetworkView, peer: PeerId, m: MessageView)
    requires
        !has_peer(s.peers, peer) || !s.peers[peer_index(s.peers, peer)].connected,
    ensures
        send_step(s, peer, m).0 == s,
        send_step(s, peer, m).1 is Err,
        !has_peer(s.peers, peer) ==> send_step(s, peer, m).1 == Err::<(), P2PErrorView>(
            P2PErrorView::PeerNotFound(peer),
        ),
{
}

/// A pong that answers the last ping sent to a peer clears that ping and
/// records the round-trip time; any other pong changes nothing.
pub proof fn law_pong_matches_ping(s: NetworkView, peer: PeerId, nonce: u64, ts: u64, now: u64)
    requires
        ids_unique(s.peers),
        has_peer(s.peers, peer),
    ensures
        ({
            let t = pong_step(s, peer, nonce, ts, now);
            let i = peer_index(s.peers, peer);
            if s.peers[i].last_ping_nonce == Some(nonce) {
                &&& t.peers[i].last_ping_nonce is None
                &&& t.peers[i].ping_rtt_ms == Some(rtt_ms(now, ts))
                &&& t.peers[i].info == s.peers[i].info
                &&& t.peers[i].connected == s.peers[i].connected
            } else {
                t == s
            }
        }),
{
}

/// After the network is stopped no peer is connected, and every entry of the
/// table is still there.
pub proof fn law_stop_closes_every_connection(s: NetworkView)
    requires
        s.running,
    ensures
        connected_infos(stop_step(s).peers) == Seq::<PeerInfoView>::empty(),
        stop_step(s).peers.len() == s.peers.len(),
        !stop_step(s).running,
{
    lemma_none_connected(stop_step(s).peers);
}

/// A table in which no entry is connected has no connected infos.
proof fn lemma_none_connected(peers: Seq<PeerConnectionView>)
    requires
        forall|i: int| 0 <= i < peers.len() ==> !(#[trigger] peers[i]).connected,
    ensures
        connected_infos(peers) == Seq::<PeerInfoView>::empty(),
    decreases peers.len(),
{
    if peers.len() > 0 {
        let d = peers.drop_last();
        assert forall|i: int| 0 <= i < d.len() implies !(#[trigger] d[i]).connected by {
            assert(d[i] == peers[i]);
        }
        lemma_none_connected(d);
        assert(!peers[peers.len() - 1].connected);
    }
}

/// Taking in lists of peers never makes a node know itself, unless it did
/// already; and every peer known before stays known.
pub proof fn law_peer_list_never_adds_self(known: Seq<PeerInfoView>, list: Seq<PeerInfoView>, local: PeerId)
    ensures
        forall|p: PeerInfoView|
            #[trigger] add_known(known, list, local).contains(p) && p.id == local ==> known.contains(p),
        forall|p: PeerInfoView| #[trigger] known.contains(p) ==> add_known(known, list, local).contains(p),
    decreases list.len(),
{
    if list.len() > 0 {
        law_peer_list_never_adds_self(known, list.drop_last(), local);
        let before = add_known(known, list.drop_last(), local);
        assert forall|p: PeerInfoView| #[trigger] known.contains(p) implies add_known(known, list, local).contains(p) by {
            assert(before.contains(p));
            if !(before.contains(list.last()) || list.last().id == local) {
                let k = choose|k: int| 0 <= k < before.len() && before[k] == p;
                assert(before.push(list.last())[k] == p);
            }
        }
        assert forall|p: PeerInfoView|
            #[trigger] add_known(known, list, local).contains(p) && p.id == local implies known.contains(p) by {
            if !(before.contains(list.last()) || list.last().id == local) {
                let after = before.push(list.last());
                let k = choose|k: int| 0 <= k < after.len() && after[k] == p;
                if k < before.len() {
                    assert(before[k] == p);
                    assert(before.contains(p));
                }
            }
        }
    }
}

/// The peers a gossip is forwarded to are connected, and the sender is never among them.
pub proof fn law_gossip_not_echoed(peers: Seq<PeerConnectionView>, sender: PeerId)
    ensures
        forall|k: int|
            0 <= k < connected_ids_except(peers, Some(sender)).len() ==> #[trigger] connected_ids_except(
                peers,
                Some(sender),
            )[k] != sender,
        forall|k: int|
            0 <= k < connected_ids_except(peers, Some(sender)).len() ==> has_peer(
                peers,
                #[trigger] connected_ids_except(peers, Some(sender))[k],
            ),
    decreases peers.len(),
{
    if peers.len() > 0 {
        let d = peers.drop_last();
        law_gossip_not_echoed(d, sender);
        let rest = connected_ids_except(d, Some(sender));
        assert forall|k: int| 0 <= k < rest.len() implies has_peer(peers, #[trigger] rest[k]) by {
            let j = choose|j: int| 0 <= j < d.len() && #[trigger] d[j].info.id == rest[k];
            assert(peers[j] == d[j]);
        }
        assert(peers[peers.len() - 1].info.id == peers.last().info.id);
    }
}

/// A gossip with time-to-live left is forwarded with one less; a gossip
/// whose time-to-live is spent goes no further.
pub proof fn law_gossip_ttl_decreases(
    s: NetworkView,
    peer: PeerId,
    topic: Seq<char>,
    data: Seq<u8>,
    ttl: u8,
)
    ensures
        ttl == 0 ==> gossip_step(s, peer, topic, data, ttl) == s,
        ({
            let g = gossip_step(s, peer, topic, data, ttl);
            forall|k: int|
                s.outbox.len() <= k < g.outbox.len() ==> (#[trigger] g.outbox[k]).message == (
                MessageView::Gossip { topic, data, ttl: (ttl - 1) as u8 })
        }),
{
}

/// A handshake from the entry of `peer` announcing another id moves that
/// entry under the announced id: afterwards the table holds the announced id
/// and no longer the old one.
pub proof fn law_handshake_rekeys(
    peers: Seq<PeerConnectionView>,
    peer: PeerId,
    info: PeerInfoView,
)
    requires
        ids_unique(peers),
        has_peer(peers, peer),
        peer != info.id,
    ensures
        has_peer(rekey_peers(peers, peer, info), info.id),
        !has_peer(rekey_peers(peers, peer, info), peer),
{
    let i = peer_index(peers, peer);
    let t = rekey_peers(peers, peer, info);
    if has_peer(peers, info.id) {
        let j = peer_index(peers, info.id);
        assert(i != j);
        if j < i {
            assert(t[j].info.id == info.id);
        } else {
            assert(t[j - 1].info.id == info.id);
        }
        if has_peer(t, peer) {
            let k = peer_index(t, peer);
            let k0 = if k < i { k } else { k + 1 };
            if k0 == j {
                assert(t[k].info.id == info.id);
            } else {
                assert(t[k] == peers[k0]);
                assert(peers[k0].info.id == peer);
            }
        }
    } else {
        assert(t[i].info.id == info.id);
        if has_peer(t, peer) {
            let k = peer_index(t, peer);
            if k != i {
                assert(t[k] == peers[k]);
            }
        }
    }
}

/// Whether some entry of the table for `target` is due for a ping at `now`.
pub open spec fn due_entry_for(
    peers: Seq<PeerConnectionView>,
    target: PeerId,
    now: u64,
    interval: u64,
    timeout: u64,
) -> bool {
    exists|i: int|
        0 <= i < peers.len() && #[trigger] peers[i].info.id == target && due_for_ping(
            peers[i],
            now,
            interval,
            timeout,
        )
}

proof fn lemma_pings_only_due(
    peers: Seq<PeerConnectionView>,
    now: u64,
    interval: u64,
    timeout: u64,
    nonces: Seq<u64>,
)
    ensures
        forall|k: int|
            0 <= k < tick_pings(peers, now, interval, timeout, nonces).len() ==> due_entry_for(
                peers,
                #[trigger] tick_pings(peers, now, interval, timeout, nonces)[k].target,
                now,
                interval,
                timeout,
            ),
    decreases peers.len(),
{
    if peers.len() > 0 {
        let n = peers.len() - 1;
        let front = peers.drop_last();
        let rest = tick_pings(front, now, interval, timeout, nonces);
        let all = tick_pings(peers, now, interval, timeout, nonces);
        lemma_pings_only_due(front, now, interval, timeout, nonces);
        assert forall|k: int| 0 <= k < all.len() implies due_entry_for(
            peers,
            #[trigger] all[k].target,
            now,
            interval,
            timeout,
        ) by {
            if k < rest.len() {
                assert(all[k] == rest[k]);
                assert(due_entry_for(front, rest[k].target, now, interval, timeout));
                let i = choose|i: int|
                    0 <= i < front.len() && #[trigger] front[i].info.id == rest[k].target
                        && due_for_ping(front[i], now, interval, timeout);
                assert(peers[i] == front[i]);
            } else {
                assert(all[k].target == peers[n].info.id);
            }
        }
    }
}

/// A maintenance pass closes every connection that has timed out, and pings
/// only entries that are connected, within their timeout, and idle for more
/// than half the ping interval.
pub proof fn law_tick_closes_timed_out_and_pings_only_live(s: NetworkView, now: u64, nonces: Seq<u64>)
    ensures
        forall|i: int|
            0 <= i < s.peers.len() && s.peers[i].connected && spec_timed_out(
                s.peers[i].last_activity,
                now,
                s.config.connection_timeout,
            ) ==> !(#[trigger] tick_step(s, now, nonces).peers[i]).connected,
        forall|k: int|
            0 <= k < tick_pings(
                s.peers,
                now,
                s.config.ping_interval,
                s.config.connection_timeout,
                nonces,
            ).len() ==> due_entry_for(
                s.peers,
                #[trigger] tick_pings(
                    s.peers,
                    now,
                    s.config.ping_interval,
                    s.config.connection_timeout,
                    nonces,
                )[k].target,
                now,
                s.config.ping_interval,
                s.config.connection_timeout,
            ),
{
    lemma_pings_only_due(s.peers, now, s.config.ping_interval, s.config.connection_timeout, nonces);
}

/// Whether the table holds a connected entry for `id`.
pub open spec fn connected_entry(peers: Seq<PeerConnectionView>, id: PeerId) -> bool {
    exists|i: int| 0 <= i < peers.len() && #[trigger] peers[i].info.id == id && peers[i].connected
}

/// Whether `id` is among `ids`.
pub open spec fn listed(ids: Seq<PeerId>, id: PeerId) -> bool {
    exists|k: int| 0 <= k < ids.len() && #[trigger] ids[k] == id
}

proof fn lemma_connected_ids(peers: Seq<PeerConnectionView>, except: Option<PeerId>)
    ensures
        forall|k: int|
            0 <= k < connected_ids_except(peers, except).len() ==> connected_entry(
                peers,
                #[trigger] connected_ids_except(peers, except)[k],
            ) && except != Some(connected_ids_except(peers, except)[k]),
        forall|i: int|
            0 <= i < peers.len() && #[trigger] peers[i].connected && except != Some(peers[i].info.id)
                ==> listed(connected_ids_except(peers, except), peers[i].info.id),
    decreases peers.len(),
{
    if peers.len() > 0 {
        let d = peers.drop_last();
        let n = peers.len() - 1;
        let rest = connected_ids_except(d, except);
        let all = connected_ids_except(peers, except);
        lemma_connected_ids(d, except);
        assert forall|k: int| 0 <= k < all.len() implies connected_entry(peers, #[trigger] all[k])
            && except != Some(all[k]) by {
            if k < rest.len() {
                assert(all[k] == rest[k]);
                assert(connected_entry(d, rest[k]));
                let j = choose|j: int| 0 <= j < d.len() && #[trigger] d[j].info.id == rest[k] && d[j].connected;
                assert(peers[j] == d[j]);
            } else {
                assert(all[k] == peers[n].info.id);
            }
        }
        assert forall|i: int|
            0 <= i < peers.len() && #[trigger] peers[i].connected && except != Some(peers[i].info.id)
                implies listed(all, peers[i].info.id) by {
            if i < n {
                assert(d[i] == peers[i]);
                assert(listed(rest, d[i].info.id));
                let k = choose|k: int| 0 <= k < rest.len() && #[trigger] rest[k] == d[i].info.id;
                assert(all[k] == rest[k]);
            } else {
                assert(all[rest.len() as int] == peers[i].info.id);
            }
        }
    }
}

/// Whether `q` holds a message `m` for `id`.
pub open spec fn queued_for(q: Seq<OutgoingView>, id: PeerId, m: MessageView) -> bool {
    exists|k: int| 0 <= k < q.len() && (#[trigger] q[k]).target == id && q[k].message == m
}

/// Gossip with time-to-live left is queued, with one less, for exactly the
/// connected peers other than its sender: every message added to the queue
/// goes to a peer with a connected entry that is not the sender, and every
/// connected peer other than the sender gets one. What was queued before stays.
pub proof fn law_gossip_reaches_every_other_connected_peer(
    s: NetworkView,
    sender: PeerId,
    topic: Seq<char>,
    data: Seq<u8>,
    ttl: u8,
)
    requires
        ttl > 0,
    ensures
        ({
            let t = gossip_step(s, sender, topic, data, ttl);
            let m = MessageView::Gossip { topic, data, ttl: (ttl - 1) as u8 };
            &&& t.outbox.len() >= s.outbox.len()
            &&& t.outbox.subrange(0, s.outbox.len() as int) == s.outbox
            &&& forall|k: int|
                s.outbox.len() <= k < t.outbox.len() ==> #[trigger] t.outbox[k].message == m
                    && t.outbox[k].target != sender && connected_entry(s.peers, t.outbox[k].target)
            &&& forall|i: int|
                0 <= i < s.peers.len() && #[trigger] s.peers[i].connected && s.peers[i].info.id != sender
                    ==> queued_for(t.outbox.subrange(s.outbox.len() as int, t.outbox.len() as int), s.peers[i].info.id, m)
            &&& t.peers == s.peers
        }),
{
    let ids = connected_ids_except(s.peers, Some(sender));
    let m = MessageView::Gossip { topic, data, ttl: (ttl - 1) as u8 };
    let t = gossip_step(s, sender, topic, data, ttl);
    let added = addressed(ids, m);
    lemma_connected_ids(s.peers, Some(sender));
    assert(t.outbox == s.outbox + added);
    assert(t.outbox.subrange(0, s.outbox.len() as int) =~= s.outbox);
    assert(t.outbox.subrange(s.outbox.len() as int, t.outbox.len() as int) =~= added);
    assert forall|k: int| s.outbox.len() <= k < t.outbox.len() implies #[trigger] t.outbox[k].message == m
        && t.outbox[k].target != sender && connected_entry(s.peers, t.outbox[k].target) by {
        let j = k - s.outbox.len();
        assert(t.outbox[k] == added[j]);
        assert(added[j].target == ids[j]);
    }
    assert forall|i: int|
        0 <= i < s.peers.len() && #[trigger] s.peers[i].connected && s.peers[i].info.id != sender
            implies queued_for(added, s.peers[i].info.id, m) by {
        assert(Some(sender) != Some(s.peers[i].info.id));
        assert(listed(ids, s.peers[i].info.id));
        let k = choose|k: int| 0 <= k < ids.len() && #[trigger] ids[k] == s.peers[i].info.id;
        assert(added[k].target == ids[k]);
    }
}

/// A broadcast queues the message for exactly the connected peers: every
/// message added goes to a peer with a connected entry, and every connected
/// peer gets one. What was queued before stays.
pub proof fn law_broadcast_reaches_every_connected_peer(s: NetworkView, m: MessageView)
    ensures
        ({
            let t = broadcast_step(s, m);
            &&& t.outbox.len() >= s.outbox.len()
            &&& t.outbox.subrange(0, s.outbox.len() as int) == s.outbox
            &&& forall|k: int|
                s.outbox.len() <= k < t.outbox.len() ==> #[trigger] t.outbox[k].message == m
                    && connected_entry(s.peers, t.outbox[k].target)
            &&& forall|i: int|
                0 <= i < s.peers.len() && #[trigger] s.peers[i].connected ==> queued_for(
                    t.outbox.subrange(s.outbox.len() as int, t.outbox.len() as int),
                    s.peers[i].info.id,
                    m,
                )
            &&& t.peers == s.peers
        }),
{
    let ids = connected_ids_except(s.peers, None);
    let t = broadcast_step(s, m);
    let added = addressed(ids, m);
    lemma_connected_ids(s.peers, None);
    assert(t.outbox.subrange(0, s.outbox.len() as int) =~= s.outbox);
    assert(t.outbox.subrange(s.outbox.len() as int, t.outbox.len() as int) =~= added);
    assert forall|k: int| s.outbox.len() <= k < t.outbox.len() implies #[trigger] t.outbox[k].message == m
        && connected_entry(s.peers, t.outbox[k].target) by {
        let j = k - s.outbox.len();
        assert(t.outbox[k] == added[j]);
        assert(added[j].target == ids[j]);
    }
    assert forall|i: int| 0 <= i < s.peers.len() && #[trigger] s.peers[i].connected implies queued_for(
        added,
        s.peers[i].info.id,
        m,
    ) by {
        assert(listed(ids, s.peers[i].info.id));
        let k = choose|k: int| 0 <= k < ids.len() && #[trigger] ids[k] == s.peers[i].info.id;
        assert(added[k].target == ids[k]);
    }
}

/// After taking a list of peers, every listed peer that is not the node
/// itself is known, and every peer known before is still known.
pub proof fn law_peer_list_learns_every_other_peer(s: NetworkView, list: Seq<PeerInfoView>)
    ensures
        forall|j: int|
            0 <= j < list.len() && (#[trigger] list[j]).id != s.local_id ==> peer_list_step(s, list).known.contains(
                list[j],
            ),
        forall|p: PeerInfoView| #[trigger] s.known.contains(p) ==> peer_list_step(s, list).known.contains(p),
        peer_list_step(s, list).peers == s.peers,
        peer_list_step(s, list).outbox == s.outbox,
{
    lemma_add_known_learns(s.known, list, s.local_id);
    law_peer_list_never_adds_self(s.known, list, s.local_id);
}

proof fn lemma_add_known_learns(known: Seq<PeerInfoView>, list: Seq<PeerInfoView>, local: PeerId)
    ensures
        forall|j: int|
            0 <= j < list.len() && (#[trigger] list[j]).id != local ==> add_known(known, list, local).contains(
                list[j],
            ),
    decreases list.len(),
{
    if list.len() > 0 {
        let d = list.drop_last();
        let before = add_known(known, d, local);
        let after = add_known(known, list, local);
        lemma_add_known_learns(known, d, local);
        assert forall|p: PeerInfoView| #[trigger] before.contains(p) implies after.contains(p) by {
            if !(before.contains(list.last()) || list.last().id == local) {
                let k = choose|k: int| 0 <= k < before.len() && before[k] == p;
                assert(before.push(list.last())[k] == p);
            }
        }
        assert forall|j: int| 0 <= j < list.len() && (#[trigger] list[j]).id != local implies after.contains(
            list[j],
        ) by {
            if j < d.len() {
                assert(d[j] == list[j]);
                assert(before.contains(d[j]));
            } else {
                if !before.contains(list.last()) {
                    assert(before.push(list.last())[before.len() as int] == list.last());
                }
            }
        }
    }
}

proof fn lemma_tick_pings_every_due(
    peers: Seq<PeerConnectionView>,
    now: u64,
    interval: u64,
    timeout: u64,
    nonces: Seq<u64>,
)
    ensures
        forall|i: int|
            0 <= i < peers.len() && #[trigger] due_for_ping(peers[i], now, interval, timeout) ==> queued_for(
                tick_pings(peers, now, interval, timeout, nonces),
                peers[i].info.id,
                MessageView::Ping { nonce: nonces[i], timestamp: now },
            ),
    decreases peers.len(),
{
    if peers.len() > 0 {
        let d = peers.drop_last();
        let n = peers.len() - 1;
        let rest = tick_pings(d, now, interval, timeout, nonces);
        let all = tick_pings(peers, now, interval, timeout, nonces);
        lemma_tick_pings_every_due(d, now, interval, timeout, nonces);
        assert forall|i: int|
            0 <= i < peers.len() && #[trigger] due_for_ping(peers[i], now, interval, timeout) implies queued_for(
                all,
                peers[i].info.id,
                MessageView::Ping { nonce: nonces[i], timestamp: now },
            ) by {
            let m = MessageView::Ping { nonce: nonces[i], timestamp: now };
            if i < n {
                assert(d[i] == peers[i]);
                assert(due_for_ping(d[i], now, interval, timeout));
                assert(queued_for(rest, d[i].info.id, m));
                let k = choose|k: int| 0 <= k < rest.len() && (#[trigger] rest[k]).target == d[i].info.id
                    && rest[k].message == m;
                assert(all[k] == rest[k]);
            } else {
                assert(all[rest.len() as int].target == peers[i].info.id);
            }
        }
    }
}

/// A maintenance pass at `now` pings every entry that is connected, within
/// its timeout (at most `connection_timeout` seconds idle), and idle for more
/// than half the ping interval: a ping carrying the nonce drawn for that entry
/// and stamped `now` goes to it, and the entry records that nonce.
pub proof fn law_tick_pings_every_idle_live_peer(s: NetworkView, now: u64, nonces: Seq<u64>)
    requires
        nonces.len() == s.peers.len(),
    ensures
        forall|i: int|
            0 <= i < s.peers.len() && (#[trigger] s.peers[i]).connected && now - s.peers[i].last_activity
                <= s.config.connection_timeout && now - s.peers[i].last_activity > s.config.ping_interval
                / 2 ==> {
                &&& queued_for(
                    tick_pings(s.peers, now, s.config.ping_interval, s.config.connection_timeout, nonces),
                    s.peers[i].info.id,
                    MessageView::Ping { nonce: nonces[i], timestamp: now },
                )
                &&& tick_step(s, now, nonces).peers[i].last_ping_nonce == Some(nonces[i])
                &&& tick_step(s, now, nonces).peers[i].connected
            },
{
    lemma_tick_pings_every_due(s.peers, now, s.config.ping_interval, s.config.connection_timeout, nonces);
    assert forall|i: int|
        0 <= i < s.peers.len() && (#[trigger] s.peers[i]).connected && now - s.peers[i].last_activity
            <= s.config.connection_timeout && now - s.peers[i].last_activity > s.config.ping_interval / 2
            implies due_for_ping(s.peers[i], now, s.config.ping_interval, s.config.connection_timeout) by {}
}

proof fn lemma_bootstrap_connects_all(
    s: NetworkView,
    nodes: Seq<Seq<char>>,
    ids: Seq<PeerId>,
    seen: Seq<u64>,
    nows: Seq<u64>,
)
    requires
        ids.len() >= nodes.len(),
        forall|a: int, b: int| 0 <= a < b < nodes.len() ==> ids[a] != ids[b],
        forall|a: int| 0 <= a < nodes.len() ==> !has_peer(s.peers, #[trigger] ids[a]),
        s.peers.len() + nodes.len() <= s.config.max_connections,
    ensures
        bootstrap_fold(s, nodes, ids, seen, nows).config == s.config,
        bootstrap_fold(s, nodes, ids, seen, nows).peers == s.peers + Seq::new(
            nodes.len(),
            |j: int| fresh_connection(bootstrap_info(ids[j], nodes[j], seen[j]), true, nows[j]),
        ),
    decreases nodes.len(),
{
    if nodes.len() > 0 {
        let n = nodes.len() - 1;
        let d = nodes.drop_last();
        lemma_bootstrap_connects_all(s, d, ids, seen, nows);
        let before = bootstrap_fold(s, d, ids, seen, nows);
        let added = Seq::new(
            d.len(),
            |j: int| fresh_connection(bootstrap_info(ids[j], d[j], seen[j]), true, nows[j]),
        );
        assert(before.peers == s.peers + added);
        assert(!has_peer(before.peers, ids[n])) by {
            if has_peer(before.peers, ids[n]) {
                let k = choose|k: int| 0 <= k < before.peers.len() && #[trigger] before.peers[k].info.id == ids[n];
                if k < s.peers.len() {
                    assert(before.peers[k] == s.peers[k]);
                    assert(has_peer(s.peers, ids[n]));
                } else {
                    assert(before.peers[k] == added[k - s.peers.len()]);
                }
            }
        }
        let all = Seq::new(
            nodes.len(),
            |j: int| fresh_connection(bootstrap_info(ids[j], nodes[j], seen[j]), true, nows[j]),
        );
        assert(bootstrap_fold(s, nodes, ids, seen, nows).peers =~= s.peers + all);
    }
}

/// Starting a stopped network connects to every bootstrap node, in order: when
/// the ids drawn for the nodes are distinct and not in the table, and the
/// table has room for them all, each node gets a connected, outbound entry
/// under its id at its address, after the entries already there.
pub proof fn law_start_connects_every_bootstrap_node(
    s: NetworkView,
    ids: Seq<PeerId>,
    seen: Seq<u64>,
    nows: Seq<u64>,
)
    requires
        !s.running,
        ids.len() == s.config.bootstrap_nodes.len(),
        forall|a: int, b: int| 0 <= a < b < ids.len() ==> ids[a] != ids[b],
        forall|a: int| 0 <= a < ids.len() ==> !has_peer(s.peers, #[trigger] ids[a]),
        s.peers.len() + ids.len() <= s.config.max_connections,
    ensures
        ({
            let t = start_step(s, ids, seen, nows);
            let nodes = s.config.bootstrap_nodes;
            &&& t.running
            &&& t.peers.len() == s.peers.len() + nodes.len()
            &&& t.peers.subrange(0, s.peers.len() as int) == s.peers
            &&& forall|j: int|
                0 <= j < nodes.len() ==> {
                    let c = #[trigger] t.peers[s.peers.len() + j];
                    &&& c.info.id == ids[j]
                    &&& c.info.address == nodes[j]
                    &&& c.connected
                    &&& c.outbound
                }
        }),
{
    let s1 = NetworkView { running: true, shutdown: false, ..s };
    lemma_bootstrap_connects_all(s1, s.config.bootstrap_nodes, ids, seen, nows);
    let t = start_step(s, ids, seen, nows);
    assert(t.peers.subrange(0, s.peers.len() as int) =~= s.peers);
    assert(t.running) by {
        lemma_bootstrap_keeps_running(s1, s.config.bootstrap_nodes, ids, seen, nows);
    }
}

proof fn lemma_bootstrap_keeps_running(
    s: NetworkView,
    nodes: Seq<Seq<char>>,
    ids: Seq<PeerId>,
    seen: Seq<u64>,
    nows: Seq<u64>,
)
    ensures
        bootstrap_fold(s, nodes, ids, seen, nows).running == s.running,
    decreases nodes.len(),
{
    if nodes.len() > 0 {
        lemma_bootstrap_keeps_running(s, nodes.drop_last(), ids, seen, nows);
    }
}

/// Whether the table holds a connected entry whose info is `info`.
pub open spec fn connected_info(peers: Seq<PeerConnectionView>, info: PeerInfoView) -> bool {
    exists|i: int| 0 <= i < peers.len() && #[trigger] peers[i].info == info && peers[i].connected
}

proof fn lemma_connected_infos(peers: Seq<PeerConnectionView>)
    ensures
        forall|k: int|
            0 <= k < connected_infos(peers).len() ==> connected_info(
                peers,
                #[trigger] connected_infos(peers)[k],
            ),
        forall|i: int|
            0 <= i < peers.len() && #[trigger] peers[i].connected ==> connected_infos(peers).contains(
                peers[i].info,
            ),
    decreases peers.len(),
{
    if peers.len() > 0 {
        let d = peers.drop_last();
        let n = peers.len() - 1;
        let rest = connected_infos(d);
        let all = connected_infos(peers);
        lemma_connected_infos(d);
        assert forall|k: int| 0 <= k < all.len() implies connected_info(peers, #[trigger] all[k]) by {
            if k < rest.len() {
                assert(all[k] == rest[k]);
                assert(connected_info(d, rest[k]));
                let i = choose|i: int| 0 <= i < d.len() && #[trigger] d[i].info == rest[k] && d[i].connected;
                assert(peers[i] == d[i]);
            } else {
                assert(all[k] == peers[n].info);
            }
        }
        assert forall|i: int| 0 <= i < peers.len() && #[trigger] peers[i].connected implies all.contains(
            peers[i].info,
        ) by {
            if i < n {
                assert(d[i] == peers[i]);
                assert(rest.contains(d[i].info));
                let k = choose|k: int| 0 <= k < rest.len() && rest[k] == d[i].info;
                assert(all[k] == rest[k]);
            } else {
                assert(all[rest.len() as int] == peers[i].info);
            }
        }
    }
}

/// A request for peers from a connected peer is answered with one peer list,
/// queued for that peer, holding the info of every connected entry and of no
/// other entry.
pub proof fn law_discover_answers_with_connected_peers(s: NetworkView, peer: PeerId)
    requires
        has_peer(s.peers, peer),
        s.peers[peer_index(s.peers, peer)].connected,
    ensures
        ({
            let (t, r) = discover_step(s, peer);
            &&& r is Ok
            &&& t.outbox.len() == s.outbox.len() + 1
            &&& t.outbox.drop_last() == s.outbox
            &&& t.outbox.last().target == peer
            &&& t.outbox.last().message matches MessageView::PeerList { peers: list } && {
                &&& forall|k: int| 0 <= k < list.len() ==> connected_info(s.peers, #[trigger] list[k])
                &&& forall|i: int|
                    0 <= i < s.peers.len() && #[trigger] s.peers[i].connected ==> list.contains(
                        s.peers[i].info,
                    )
            }
        }),
{
    lemma_connected_infos(s.peers);
    let (t, r) = discover_step(s, peer);
    assert(t.outbox.drop_last() =~= s.outbox);
}

/// Any message but a handshake from a peer in the table records activity on
/// that peer's entry at the time it is taken (a handshake records it too, but
/// may move the entry under the announced id).
pub proof fn law_message_records_activity(s: NetworkView, peer: PeerId, m: MessageView, now: u64)
    requires
        has_peer(s.peers, peer),
        !(m is Handshake),
    ensures
        message_step(s, peer, m, now).0.peers.len() == s.peers.len(),
        message_step(s, peer, m, now).0.peers[peer_index(s.peers, peer)].last_activity == now,
        message_step(s, peer, m, now).0.peers[peer_index(s.peers, peer)].info == s.peers[peer_index(
            s.peers,
            peer,
        )].info,
{
    let t = touch_step(s, peer, now);
    let i = peer_index(s.peers, peer);
    assert(t.peers[i].last_activity == now);
    assert(t.peers[i].info.id == peer);
}

/// A direct message for the node itself is kept: nothing is queued and it is
/// accepted. One for a peer with a connected entry is forwarded to that peer
/// unchanged, after what was queued before.
pub proof fn law_direct_message_kept_or_forwarded(s: NetworkView, target: PeerId, data: Seq<u8>)
    ensures
        target == s.local_id ==> direct_step(s, target, data) == (s, Ok::<(), P2PErrorView>(())),
        target != s.local_id && has_peer(s.peers, target) && s.peers[peer_index(s.peers, target)].connected
            ==> {
            let (t, r) = direct_step(s, target, data);
            &&& r is Ok
            &&& t.outbox == s.outbox.push(
                OutgoingView { target, message: MessageView::DirectMessage { target, data } },
            )
            &&& t.peers == s.peers
        },
{
}

/// The round-trip time of a ping answered `d` seconds later is `d` thousand
/// milliseconds, capped at `u64::MAX`; it grows with the answer's delay.
pub proof fn law_rtt_is_elapsed_milliseconds(now: u64, timestamp: u64, later: u64)
    ensures
        timestamp <= now && (now - timestamp) * 1000 <= u64::MAX ==> rtt_ms(now, timestamp) == (now
            - timestamp) * 1000,
        timestamp <= now && (now - timestamp) * 1000 > u64::MAX ==> rtt_ms(now, timestamp) == u64::MAX,
        timestamp <= now <= later ==> rtt_ms(now, timestamp) <= rtt_ms(later, timestamp),
{
    if timestamp <= now <= later {
        assert((now - timestamp) * 1000 <= (later - timestamp) * 1000) by (nonlinear_arith)
            requires
                timestamp <= now <= later,
        ;
    }
}

/// Whether the table holds an entry with exactly this info, connection
/// state, direction and last activity.
pub open spec fn holds_entry(
    peers: Seq<PeerConnectionView>,
    info: PeerInfoView,
    connected: bool,
    outbound: bool,
    last_activity: u64,
) -> bool {
    exists|j: int|
        0 <= j < peers.len() && #[trigger] peers[j].info == info && peers[j].connected == connected
            && peers[j].outbound == outbound && peers[j].last_activity == last_activity
}

/// A handshake at `now` on the entry of a peer in the table records what the
/// peer announced: the table then holds an entry under the announced id, with
/// the address the entry had, seen at `now`, with the announced version and
/// capabilities, keeping the entry's connection state, direction and last
/// activity; and that info is known.
pub proof fn law_handshake_records_announced_info(
    s: NetworkView,
    peer: PeerId,
    version: u32,
    sender: PeerId,
    capabilities: Seq<Seq<char>>,
    now: u64,
)
    requires
        has_peer(s.peers, peer),
    ensures
        ({
            let c = s.peers[peer_index(s.peers, peer)];
            let info = PeerInfoView {
                id: sender,
                address: c.info.address,
                last_seen: now,
                version,
                capabilities,
            };
            let t = handshake_step(s, peer, version, sender, capabilities, now).0;
            &&& holds_entry(t.peers, info, c.connected, c.outbound, c.last_activity)
            &&& t.known.contains(info)
        }),
{
    let i = peer_index(s.peers, peer);
    let c = s.peers[i];
    let info = PeerInfoView { id: sender, address: c.info.address, last_seen: now, version, capabilities };
    let peers = s.peers;
    let r = rekey_peers(peers, peer, info);
    if peer != sender {
        let nc = PeerConnectionView {
            info,
            connected: c.connected,
            last_activity: c.last_activity,
            failure_count: 0,
            last_ping_nonce: None,
            ping_rtt_ms: None,
            outbound: c.outbound,
        };
        if has_peer(peers, sender) {
            let j = peer_index(peers, sender);
            let u = peers.update(j, nc);
            assert(j != i) by {
                assert(peers[j].info.id == sender);
                assert(peers[i].info.id == peer);
            }
            assert(u[j] == nc);
            if j < i {
                assert(r[j] == u[j]);
                assert(r[j].info == info);
            } else {
                assert(r[j - 1] == u[j]);
                assert(r[j - 1].info == info);
            }
        } else {
            assert(r[i] == nc);
            assert(r[i].info == info);
        }
    } else {
        assert(r[i] == PeerConnectionView { info, ..c });
        assert(r[i].info == info);
    }
    assert(holds_entry(r, info, c.connected, c.outbound, c.last_activity));
    let k = known_insert(s.known, info);
    if !s.known.contains(info) {
        assert(k[s.known.len() as int] == info);
    }
    assert(k.contains(info));
}

/// A maintenance pass leaves alone every entry that is neither a timed-out
/// connection nor due for a ping: closed entries, and connected ones idle for
/// at most half the ping interval.
pub proof fn law_tick_leaves_other_entries(s: NetworkView, now: u64, nonces: Seq<u64>)
    ensures
        forall|i: int|
            0 <= i < s.peers.len() && (!(#[trigger] s.peers[i]).connected || (now - s.peers[i].last_activity
                <= s.config.connection_timeout && now - s.peers[i].last_activity <= s.config.ping_interval
                / 2)) ==> tick_step(s, now, nonces).peers[i] == s.peers[i],
        tick_step(s, now, nonces).peers.len() == s.peers.len(),
        tick_step(s, now, nonces).known == s.known,
        tick_step(s, now, nonces).outbox == s.outbox,
{
}

/// Starting a network that is already running changes nothing.
pub proof fn law_start_when_running_changes_nothing(
    s: NetworkView,
    ids: Seq<PeerId>,
    seen: Seq<u64>,
    nows: Seq<u64>,
)
    requires
        s.running,
    ensures
        start_step(s, ids, seen, nows) == s,
{
}

/// A successful connection makes the peer known, and every peer known before
/// stays known; nothing is queued.
pub proof fn law_connect_remembers_peer(s: NetworkView, info: PeerInfoView, now: u64)
    requires
        !has_peer(s.peers, info.id),
        s.peers.len() < s.config.max_connections,
    ensures
        connect_step(s, info, now).0.known.contains(info),
        forall|p: PeerInfoView| #[trigger] s.known.contains(p) ==> connect_step(s, info, now).0.known.contains(p),
        connect_step(s, info, now).0.outbox == s.outbox,
{
    let k = connect_step(s, info, now).0.known;
    if !s.known.contains(info) {
        assert(k[s.known.len() as int] == info);
        assert forall|p: PeerInfoView| #[trigger] s.known.contains(p) implies k.contains(p) by {
            let j = choose|j: int| 0 <= j < s.known.len() && s.known[j] == p;
            assert(k[j] == p);
        }
    }
}

// ---------------------------------------------------------------------------

/// Core network functionality for the P2P system
#[derive(Debug)]
pub struct Network {
    /// Our own peer ID
    pub local_id: PeerId,
    /// Network configuration
    pub config: P2PConfig,
    /// Connection table; no two entries are for the same peer
    peers: Vec<PeerConnection>,
    /// Known peers; no two are equal
    known_peers: Vec<PeerInfo>,
    /// Messages queued for sending
    outbox: Vec<Outgoing>,
    /// Shutdown flag
    shutdown: bool,
    /// Running flag (is the network started)
    running: bool,
}

impl View for Network {
    type V = NetworkView;

    closed spec fn view(&self) -> NetworkView {
        NetworkView {
            local_id: self.local_id,
            config: self.config@,
            peers: self.peers@.map_values(|c: PeerConnection| c@),
            known: self.known_peers@.map_values(|p: PeerInfo| p@),
            outbox: self.outbox@.map_values(|o: Outgoing| o@),
            running: self.running,
            shutdown: self.shutdown,
        }
    }
}

impl Network {
    /// The table holds no repeated peer and the known peers no repeated info.
    pub open spec fn wf(&self) -> bool {
        &&& ids_unique(self@.peers)
        &&& self@.known.no_duplicates()
    }

    /// Create a new network with an empty table, nothing known, nothing queued, not started.
    pub fn new(local_id: PeerId, config: P2PConfig) -> (res: Self)
        ensures
            res.wf(),
            res@ == (NetworkView {
                local_id,
                config: config@,
                peers: Seq::empty(),
                known: Seq::empty(),
                outbox: Seq::empty(),
                running: false,
                shutdown: false,
            }),
    {
        let res = Network {
            local_id,
            config,
            peers: Vec::new(),
            known_peers: Vec::new(),
            outbox: Vec::new(),
            shutdown: false,
            running: false,
        };
        assert(res@.peers =~= Seq::empty());
        assert(res@.known =~= Seq::empty());
        assert(res@.outbox =~= Seq::empty());
        res
    }

    /// Whether the network has been started and not stopped since.
    pub fn is_running(&self) -> (res: bool)
        ensures
            res == self@.running,
    {
        self.running
    }

    /// Whether the table has room for another connection: it holds fewer
    /// entries than the configured maximum. A connection beyond it is refused.
    pub fn has_room(&self) -> (res: bool)
        ensures
            res == (self@.peers.len() < self@.config.max_connections),
    {
        self.peers.len() < self.config.max_connections
    }

    /// Position of the entry for `id` in the table, if there is one.
    fn find_peer(&self, id: PeerId) -> (res: Option<usize>)
        requires
            self.wf(),
        ensures
            match res {
                Some(i) => {
                    &&& i < self@.peers.len()
                    &&& has_peer(self@.peers, id)
                    &&& peer_index(self@.peers, id) == i
                },
                None => !has_peer(self@.peers, id),
            },
    {
        let mut i: usize = 0;
        while i < self.peers.len()
            invariant
                0 <= i <= self.peers@.len(),
                self.wf(),
                forall|j: int| 0 <= j < i ==> self@.peers[j].info.id != id,
            decreases self.peers@.len() - i,
        {
            if self.peers[i].info.id == id {
                proof {
                    lemma_peer_index_unique(self@.peers, i as int);
                }
                return Some(i);
            }
            i = i + 1;
        }
        None
    }

    /// Whether `info` is among the known peers.
    fn knows(&self, info: &PeerInfo) -> (res: bool)
        ensures
            res == self@.known.contains(info@),
    {
        let mut i: usize = 0;
        while i < self.known_peers.len()
            invariant
                0 <= i <= self.known_peers@.len(),
                forall|j: int| 0 <= j < i ==> self@.known[j] != info@,
            decreases self.known_peers@.len() - i,
        {
            if self.known_peers[i].same_as(info) {
                assert(self@.known[i as int] == info@);
                return true;
            }
            i = i + 1;
        }
        false
    }

    /// Add `info` to the known peers unless it is already known.
    fn remember(&mut self, info: PeerInfo)
        requires
            old(self).wf(),
        ensures
            final(self).wf(),
            final(self)@ == (NetworkView { known: known_insert(old(self)@.known, info@), ..old(self)@ }),
    {
        if !self.knows(&info) {
            self.known_peers.push(info);
            assert(self@.known =~= old(self)@.known.push(info@));
            assert(self@.peers =~= old(self)@.peers);
            assert(self@.outbox =~= old(self)@.outbox);
        }
    }

    /// Connect to a peer, as of time `now`.
    pub fn connect_at(&mut self, peer_info: PeerInfo, now: u64) -> (res: Result<(), P2PError>)
        requires
            old(self).wf(),
        ensures
            final(self).wf(),
            (final(self)@, unit_result_view(res)) == connect_step(old(self)@, peer_info@, now),
    {
        let id = peer_info.id;
        if self.find_peer(id).is_some() {
            return Err(P2PError::AlreadyConnected(id));
        }
        if self.peers.len() >= self.config.max_connections {
            return Err(P2PError::MaxConnectionsReached);
        }
        let connection = PeerConnection {
            info: peer_info.clone(),
            connected: true,
            last_activity: now,
            failure_count: 0,
            last_ping_nonce: None,
            ping_rtt_ms: None,
            outbound: true,
        };
        let ghost before = self@;
        self.peers.push(connection);
        assert(self@.peers =~= before.peers.push(fresh_connection(peer_info@, true, now)));
        assert(self@.known =~= before.known);
        assert(self@.outbox =~= before.outbox);
        assert(ids_unique(self@.peers)) by {
            assert forall|i: int, j: int|
                0 <= i < self@.peers.len() && 0 <= j < self@.peers.len() && i != j implies #[trigger] self@.peers[i].info.id
                    != #[trigger] self@.peers[j].info.id by {
                if i == before.peers.len() {
                    assert(before.peers[j].info.id == self@.peers[j].info.id);
                } else if j == before.peers.len() {
                    assert(before.peers[i].info.id == self@.peers[i].info.id);
                }
            }
        }
        self.remember(peer_info);
        Ok(())
    }

    /// Connect to a peer; the new connection's last activity is the clock's reading.
    pub fn connect(&mut self, peer_info: PeerInfo) -> (res: Result<(), P2PError>)
        requires
            old(self).wf(),
        ensures
            final(self).wf(),
            exists|now: u64|
                (final(self)@, unit_result_view(res)) == #[trigger] connect_step(
                    old(self)@,
                    peer_info@,
                    now,
                ),
    {
        let now = unix_now_secs();
        self.connect_at(peer_info, now)
    }

    /// Disconnect from a peer: its entry stays, marked as not connected.
    pub fn disconnect(&mut self, peer_id: PeerId) -> (res: Result<(), P2PError>)
        requires
            old(self).wf(),
        ensures
            final(self).wf(),
            (final(self)@, unit_result_view(res)) == disconnect_step(old(self)@, peer_id),
    {
        match self.find_peer(peer_id) {
            Some(i) => {
                let ghost before = self@;
                self.peers[i].connected = false;
                assert(self@.peers =~= before.peers.update(
                    i as int,
                    PeerConnectionView { connected: false, ..before.peers[i as int] },
                ));
                assert(self@.known =~= before.known);
                assert(self@.outbox =~= before.outbox);
                assert(ids_unique(self@.peers)) by {
                    assert forall|a: int, b: int|
                        0 <= a < self@.peers.len() && 0 <= b < self@.peers.len() && a != b implies #[trigger] self@.peers[a].info.id
                            != #[trigger] self@.peers[b].info.id by {
                        assert(self@.peers[a].info.id == before.peers[a].info.id);
                        assert(self@.peers[b].info.id == before.peers[b].info.id);
                    }
                }
                Ok(())
            },
            None => Err(P2PError::PeerNotFound(peer_id)),
        }
    }

    /// Queue a message for a connected peer.
    pub fn send_message(&mut self, peer_id: PeerId, message: &Message) -> (res: Result<(), P2PError>)
        requires
            old(self).wf(),
        ensures
            final(self).wf(),
            (final(self)@, unit_result_view(res)) == send_step(old(self)@, peer_id, message@),
    {
        match self.find_peer(peer_id) {
            Some(i) => {
                if !self.peers[i].connected {
                    return Err(P2PError::Network(String::from_str("Peer not connected")));
                }
                let ghost before = self@;
                self.outbox.push(Outgoing { target: peer_id, message: message.clone() });
                assert(self@.outbox =~= before.outbox.push(
                    OutgoingView { target: peer_id, message: message@ },
                ));
                assert(self@.peers =~= before.peers);
                assert(self@.known =~= before.known);
                Ok(())
            },
            None => Err(P2PError::PeerNotFound(peer_id)),
        }
    }

    /// The connected peers other than `except`, in table order.
    fn connected_targets(&self, except: Option<PeerId>) -> (res: Vec<PeerId>)
        ensures
            res@ == connected_ids_except(self@.peers, except),
    {
        let mut res: Vec<PeerId> = Vec::new();
        let mut i: usize = 0;
        while i < self.peers.len()
            invariant
                0 <= i <= self.peers@.len(),
                res@ == connected_ids_except(self@.peers.take(i as int), except),
            decreases self.peers@.len() - i,
        {
            let ghost prefix = self@.peers.take(i as int + 1);
            assert(prefix.drop_last() =~= self@.peers.take(i as int));
            let id = self.peers[i].info.id;
            let excluded = match except {
                Some(e) => id == e,
                None => false,
            };
            if self.peers[i].connected && !excluded {
                res.push(id);
            }
            i = i + 1;
        }
        assert(self@.peers.take(self@.peers.len() as int) =~= self@.peers);
        res
    }

    /// Queue `message` for each of `targets`, in order.
    fn queue_for_all(&mut self, targets: &Vec<PeerId>, message: &Message)
        requires
            old(self).wf(),
        ensures
            final(self).wf(),
            final(self)@ == (NetworkView {
                outbox: old(self)@.outbox + addressed(targets@, message@),
                ..old(self)@
            }),
    {
        let mut i: usize = 0;
        while i < targets.len()
            invariant
                0 <= i <= targets@.len(),
                self.wf(),
                self@ == (NetworkView {
                    outbox: old(self)@.outbox + addressed(targets@.take(i as int), message@),
                    ..old(self)@
                }),
            decreases targets@.len() - i,
        {
            let ghost before = self@;
            self.outbox.push(Outgoing { target: targets[i], message: message.clone() });
            assert(self@.outbox =~= before.outbox.push(
                OutgoingView { target: targets@[i as int], message: message@ },
            ));
            assert(addressed(targets@.take(i as int + 1), message@) =~= addressed(
                targets@.take(i as int),
                message@,
            ).push(OutgoingView { target: targets@[i as int], message: message@ }));
            assert(self@.outbox =~= old(self)@.outbox + addressed(
                targets@.take(i as int + 1),
                message@,
            ));
            assert(self@.peers =~= before.peers);
            assert(self@.known =~= before.known);
            i = i + 1;
        }
        assert(targets@.take(targets@.len() as int) =~= targets@);
    }

    /// Queue a message for every connected peer.
    pub fn broadcast(&mut self, message: &Message) -> (res: Result<(), P2PError>)
        requires
            old(self).wf(),
        ensures
            final(self).wf(),
            res is Ok,
            final(self)@ == broadcast_step(old(self)@, message@),
    {
        let targets = self.connected_targets(None);
        self.queue_for_all(&targets, message);
        Ok(())
    }

    /// Get a list of all connected peers, in table order.
    pub fn get_connected_peers(&self) -> (res: Vec<PeerInfo>)
        ensures
            res@.map_values(|p: PeerInfo| p@) == connected_infos(self@.peers),
    {
        let mut res: Vec<PeerInfo> = Vec::new();
        let mut i: usize = 0;
        while i < self.peers.len()
            invariant
                0 <= i <= self.peers@.len(),
                res@.map_values(|p: PeerInfo| p@) == connected_infos(self@.peers.take(i as int)),
            decreases self.peers@.len() - i,
        {
            let ghost prefix = self@.peers.take(i as int + 1);
            assert(prefix.drop_last() =~= self@.peers.take(i as int));
            let ghost before = res@;
            if self.peers[i].connected {
                res.push(self.peers[i].info.clone());
                assert(res@.map_values(|p: PeerInfo| p@) =~= before.map_values(|p: PeerInfo| p@).push(
                    self@.peers[i as int].info,
                ));
            }
            i = i + 1;
        }
        assert(self@.peers.take(self@.peers.len() as int) =~= self@.peers);
        res
    }

    /// Get all known peers, each once, in the order in which they became known.
    pub fn get_known_peers(&self) -> (res: Vec<PeerInfo>)
        ensures
            res@.map_values(|p: PeerInfo| p@) == self@.known,
    {
        let res = crate::peer::clone_peer_infos(&self.known_peers);
        assert(res@.map_values(|p: PeerInfo| p@) =~= self@.known);
        res
    }

    /// The connection to a peer, if the table holds one.
    pub fn get_peer_connection(&self, peer_id: PeerId) -> (res: Option<&PeerConnection>)
        requires
            self.wf(),
        ensures
            match res {
                Some(c) => has_peer(self@.peers, peer_id) && c@ == self@.peers[peer_index(
                    self@.peers,
                    peer_id,
                )],
                None => !has_peer(self@.peers, peer_id),
            },
    {
        match self.find_peer(peer_id) {
            Some(i) => Some(&self.peers[i]),
            None => None,
        }
    }

    /// Record activity from a peer at time `now`, if the table holds it.
    fn touch_at(&mut self, peer_id: PeerId, now: u64)
        requires
            old(self).wf(),
        ensures
            final(self).wf(),
            final(self)@ == touch_step(old(self)@, peer_id, now),
    {
        if let Some(i) = self.find_peer(peer_id) {
            let ghost before = self@;
            self.peers[i].last_activity = now;
            assert(self@.peers =~= before.peers.update(
                i as int,
                PeerConnectionView { last_activity: now, ..before.peers[i as int] },
            ));
            assert(self@.known =~= before.known);
            assert(self@.outbox =~= before.outbox);
            proof {
                lemma_unique_update(before.peers, i as int, self@.peers[i as int]);
            }
        }
    }

    /// Handle a ping received at time `now`: answer with a pong.
    pub fn handle_ping_at(&mut self, peer_id: PeerId, nonce: u64, timestamp: u64, now: u64) -> (res:
        Result<(), P2PError>)
        requires
            old(self).wf(),
        ensures
            final(self).wf(),
            (final(self)@, unit_result_view(res)) == ping_step(old(self)@, peer_id, nonce, now),
    {
        let pong = Message::Pong { nonce, timestamp: now };
        self.send_message(peer_id, &pong)
    }

    /// Handle a ping: answer with a pong stamped with the clock's reading.
    pub fn handle_ping(&mut self, peer_id: PeerId, nonce: u64, timestamp: u64) -> (res: Result<
        (),
        P2PError,
    >)
        requires
            old(self).wf(),
        ensures
            final(self).wf(),
            exists|now: u64|
                (final(self)@, unit_result_view(res)) == #[trigger] ping_step(
                    old(self)@,
                    peer_id,
                    nonce,
                    now,
                ),
    {
        let now = unix_now_secs();
        self.handle_ping_at(peer_id, nonce, timestamp, now)
    }

    /// Handle a pong received at time `now`.
    pub fn handle_pong_at(&mut self, peer_id: PeerId, nonce: u64, timestamp: u64, now: u64) -> (res:
        Result<(), P2PError>)
        requires
            old(self).wf(),
        ensures
            final(self).wf(),
            res is Ok,
            final(self)@ == pong_step(old(self)@, peer_id, nonce, timestamp, now),
    {
        if let Some(i) = self.find_peer(peer_id) {
            let matches = match self.peers[i].last_ping_nonce {
                Some(n) => n == nonce,
                None => false,
            };
            if matches {
                let rtt: u64 = if timestamp > now {
                    0
                } else {
                    let d = now - timestamp;
                    if d > u64::MAX / 1000 {
                        assert(d * 1000 > u64::MAX) by (nonlinear_arith)
                            requires
                                d > u64::MAX / 1000,
                        ;
                        u64::MAX
                    } else {
                        assert(d * 1000 <= u64::MAX) by (nonlinear_arith)
                            requires
                                d <= u64::MAX / 1000,
                        ;
                        d * 1000
                    }
                };
                assert(rtt == rtt_ms(now, timestamp));
                let ghost before = self@;
                self.peers[i].ping_rtt_ms = Some(rtt);
                self.peers[i].last_ping_nonce = None;
                assert(self@.peers =~= before.peers.update(
                    i as int,
                    PeerConnectionView {
                        ping_rtt_ms: Some(rtt),
                        last_ping_nonce: None,
                        ..before.peers[i as int]
                    },
                ));
                assert(self@.known =~= before.known);
                assert(self@.outbox =~= before.outbox);
                proof {
                    lemma_unique_update(before.peers, i as int, self@.peers[i as int]);
                }
            }
        }
        Ok(())
    }

    /// Handle a pong, timing it against the clock's reading.
    pub fn handle_pong(&mut self, peer_id: PeerId, nonce: u64, timestamp: u64) -> (res: Result<
        (),
        P2PError,
    >)
        requires
            old(self).wf(),
        ensures
            final(self).wf(),
            res is Ok,
            exists|now: u64| final(self)@ == #[trigger] pong_step(old(self)@, peer_id, nonce, timestamp, now),
    {
        let now = unix_now_secs();
        self.handle_pong_at(peer_id, nonce, timestamp, now)
    }

    /// Handle a discover peers request: answer with the connected peers.
    pub fn handle_discover_peers(&mut self, peer_id: PeerId) -> (res: Result<(), P2PError>)
        requires
            old(self).wf(),
        ensures
            final(self).wf(),
            (final(self)@, unit_result_view(res)) == discover_step(old(self)@, peer_id),
    {
        let peers = self.get_connected_peers();
        let peer_list = Message::PeerList { peers };
        self.send_message(peer_id, &peer_list)
    }

    /// Handle a peer list: remember each listed peer not yet known and not ourselves.
    pub fn handle_peer_list(&mut self, peer_id: PeerId, peers: Vec<PeerInfo>) -> (res: Result<
        (),
        P2PError,
    >)
        requires
            old(self).wf(),
        ensures
            final(self).wf(),
            res is Ok,
            final(self)@ == peer_list_step(old(self)@, peers@.map_values(|p: PeerInfo| p@)),
    {
        let ghost list = peers@.map_values(|p: PeerInfo| p@);
        let mut i: usize = 0;
        while i < peers.len()
            invariant
                0 <= i <= peers@.len(),
                list == peers@.map_values(|p: PeerInfo| p@),
                self.wf(),
                self@ == (NetworkView {
                    known: add_known(old(self)@.known, list.take(i as int), old(self)@.local_id),
                    ..old(self)@
                }),
            decreases peers@.len() - i,
        {
            assert(list.take(i as int + 1).drop_last() =~= list.take(i as int));
            assert(list.take(i as int + 1).last() == peers@[i as int]@);
            let p = peers[i].clone();
            if !self.knows(&p) && !(p.id == self.local_id) {
                let ghost before = self@;
                self.known_peers.push(p);
                assert(self@.known =~= before.known.push(peers@[i as int]@));
                assert(self@.peers =~= before.peers);
                assert(self@.outbox =~= before.outbox);
            }
            i = i + 1;
        }
        assert(list.take(peers@.len() as int) =~= list);
        Ok(())
    }

    /// Handle a custom message; it is for the application, so nothing changes here.
    pub fn handle_custom(&self, peer_id: PeerId, data: Vec<u8>) -> (res: Result<(), P2PError>)
        ensures
            res is Ok,
    {
        Ok(())
    }

    /// Handle a direct message: keep it when it is for us, otherwise forward it to its target.
    pub fn handle_direct_message(&mut self, peer_id: PeerId, target: PeerId, data: Vec<u8>) -> (res:
        Result<(), P2PError>)
        requires
            old(self).wf(),
        ensures
            final(self).wf(),
            (final(self)@, unit_result_view(res)) == direct_step(old(self)@, target, data@),
    {
        if target == self.local_id {
            self.handle_custom(peer_id, data)
        } else {
            let message = Message::DirectMessage { target, data };
            self.send_message(target, &message)
        }
    }

    /// Apply a handshake's announced `info` to the entry of `peer_id`, at position `i`.
    fn rekey(&mut self, peer_id: PeerId, i: usize, info: &PeerInfo)
        requires
            old(self).wf(),
            has_peer(old(self)@.peers, peer_id),
            i == peer_index(old(self)@.peers, peer_id),
        ensures
            final(self).wf(),
            final(self)@ == (NetworkView {
                peers: rekey_peers(old(self)@.peers, peer_id, info@),
                ..old(self)@
            }),
    {
        let ghost s = self@;
        let ghost infov = info@;
        let sender_id = info.id;
        if !(peer_id == sender_id) {
            let nc = PeerConnection {
                info: info.clone(),
                connected: self.peers[i].connected,
                last_activity: self.peers[i].last_activity,
                failure_count: 0,
                last_ping_nonce: None,
                ping_rtt_ms: None,
                outbound: self.peers[i].outbound,
            };
            let ghost ncv = nc@;
            match self.find_peer(sender_id) {
                Some(j) => {
                    self.peers[j] = nc;
                    let ghost mid = self@.peers;
                    assert(mid =~= s.peers.update(j as int, ncv));
                    proof {
                        lemma_unique_update(s.peers, j as int, ncv);
                    }
                    self.peers.remove(i);
                    assert(self@.peers =~= mid.remove(i as int));
                    proof {
                        lemma_unique_remove(mid, i as int);
                    }
                },
                None => {
                    self.peers[i] = nc;
                    assert(self@.peers =~= s.peers.update(i as int, ncv));
                    proof {
                        lemma_unique_update(s.peers, i as int, ncv);
                    }
                },
            }
        } else {
            self.peers[i].info = info.clone();
            assert(self@.peers =~= s.peers.update(
                i as int,
                PeerConnectionView { info: infov, ..s.peers[i as int] },
            ));
            proof {
                lemma_unique_update(s.peers, i as int, self@.peers[i as int]);
            }
        }
        assert(self@.known =~= s.known);
        assert(self@.outbox =~= s.outbox);
    }

    /// Handle a handshake received at time `now`.
    pub fn handle_handshake_at(
        &mut self,
        peer_id: PeerId,
        version: u32,
        sender_id: PeerId,
        listen_port: u16,
        capabilities: Vec<String>,
        now: u64,
    ) -> (res: Result<(), P2PError>)
        requires
            old(self).wf(),
        ensures
            final(self).wf(),
            (final(self)@, unit_result_view(res)) == handshake_step(
                old(self)@,
                peer_id,
                version,
                sender_id,
                crate::peer::strings_view(capabilities@),
                now,
            ),
    {
        if let Some(i) = self.find_peer(peer_id) {
            let info = PeerInfo {
                id: sender_id,
                address: self.peers[i].info.address.clone(),
                last_seen: now,
                version,
                capabilities: crate::peer::clone_strings(&capabilities),
            };
            self.rekey(peer_id, i, &info);
            self.remember(info);
        }
        if let Some(j) = self.find_peer(sender_id) {
            if !self.peers[j].outbound {
                let handshake = Message::Handshake {
                    version: self.config.protocol_version,
                    peer_id: self.local_id,
                    listen_port: self.config.port,
                    capabilities: crate::peer::clone_strings(&self.config.capabilities),
                };
                return self.send_message(sender_id, &handshake);
            }
        }
        Ok(())
    }

    /// Handle a handshake, stamping the peer's info with the clock's reading.
    pub fn handle_handshake(
        &mut self,
        peer_id: PeerId,
        version: u32,
        sender_id: PeerId,
        listen_port: u16,
        capabilities: Vec<String>,
    ) -> (res: Result<(), P2PError>)
        requires
            old(self).wf(),
        ensures
            final(self).wf(),
            exists|now: u64|
                (final(self)@, unit_result_view(res)) == #[trigger] handshake_step(
                    old(self)@,
                    peer_id,
                    version,
                    sender_id,
                    crate::peer::strings_view(capabilities@),
                    now,
                ),
    {
        let now = unix_now_secs();
        self.handle_handshake_at(peer_id, version, sender_id, listen_port, capabilities, now)
    }

    /// Handle gossip: with time-to-live left, forward it with one less to every
    /// other connected peer.
    pub fn handle_gossip(&mut self, peer_id: PeerId, topic: String, data: Vec<u8>, ttl: u8) -> (res:
        Result<(), P2PError>)
        requires
            old(self).wf(),
        ensures
            final(self).wf(),
            res is Ok,
            final(self)@ == gossip_step(old(self)@, peer_id, topic@, data@, ttl),
    {
        if ttl > 0 {
            let new_ttl = ttl - 1;
            let gossip = Message::Gossip { topic, data, ttl: new_ttl };
            let targets = self.connected_targets(Some(peer_id));
            self.queue_for_all(&targets, &gossip);
        }
        Ok(())
    }

    /// Handle a subscribe message; subscriptions are not tracked, so nothing changes.
    pub fn handle_subscribe(&self, peer_id: PeerId, topic: String) -> (res: Result<(), P2PError>)
        ensures
            res is Ok,
    {
        Ok(())
    }

    /// Handle an unsubscribe message; subscriptions are not tracked, so nothing changes.
    pub fn handle_unsubscribe(&self, peer_id: PeerId, topic: String) -> (res: Result<(), P2PError>)
        ensures
            res is Ok,
    {
        Ok(())
    }

    /// Handle any message from a peer, received at time `now`.
    pub fn handle_message_at(&mut self, peer_id: PeerId, message: Message, now: u64) -> (res: Result<
        (),
        P2PError,
    >)
        requires
            old(self).wf(),
        ensures
            final(self).wf(),
            (final(self)@, unit_result_view(res)) == message_step(old(self)@, peer_id, message@, now),
    {
        self.touch_at(peer_id, now);
        match message {
            Message::Ping { nonce, timestamp } => self.handle_ping_at(peer_id, nonce, timestamp, now),
            Message::Pong { nonce, timestamp } => self.handle_pong_at(peer_id, nonce, timestamp, now),
            Message::DiscoverPeers => self.handle_discover_peers(peer_id),
            Message::PeerList { peers } => self.handle_peer_list(peer_id, peers),
            Message::Custom { data } => self.handle_custom(peer_id, data),
            Message::DirectMessage { target, data } => self.handle_direct_message(peer_id, target, data),
            Message::Handshake { version, peer_id: sender_id, listen_port, capabilities } =>
                self.handle_handshake_at(peer_id, version, sender_id, listen_port, capabilities, now),
            Message::Gossip { topic, data, ttl } => self.handle_gossip(peer_id, topic, data, ttl),
            Message::Subscribe { topic } => self.handle_subscribe(peer_id, topic),
            Message::Unsubscribe { topic } => self.handle_unsubscribe(peer_id, topic),
        }
    }

    /// Handle any message from a peer, recording its activity at the clock's reading.
    pub fn handle_message(&mut self, peer_id: PeerId, message: Message) -> (res: Result<
        (),
        P2PError,
    >)
        requires
            old(self).wf(),
        ensures
            final(self).wf(),
            exists|now: u64|
                (final(self)@, unit_result_view(res)) == #[trigger] message_step(
                    old(self)@,
                    peer_id,
                    message@,
                    now,
                ),
    {
        let now = unix_now_secs();
        self.handle_message_at(peer_id, message, now)
    }

    /// Stop the network: every connection is marked as closed. Stopping a
    /// network that is not running changes nothing.
    pub fn stop(&mut self) -> (res: Result<(), P2PError>)
        requires
            old(self).wf(),
        ensures
            final(self).wf(),
            res is Ok,
            final(self)@ == stop_step(old(self)@),
    {
        if !self.running {
            return Ok(());
        }
        self.shutdown = true;
        let ghost s = self@;
        let mut i: usize = 0;
        while i < self.peers.len()
            invariant
                0 <= i <= self.peers@.len(),
                self@.peers.len() == s.peers.len(),
                forall|j: int|
                    0 <= j < i ==> #[trigger] self@.peers[j] == (PeerConnectionView {
                        connected: false,
                        ..s.peers[j]
                    }),
                forall|j: int| i <= j < self@.peers.len() ==> #[trigger] self@.peers[j] == s.peers[j],
                self@ == (NetworkView { peers: self@.peers, ..s }),
            decreases self.peers@.len() - i,
        {
            let ghost before = self@;
            self.peers[i].connected = false;
            assert(self@.peers =~= before.peers.update(
                i as int,
                PeerConnectionView { connected: false, ..before.peers[i as int] },
            ));
            assert(self@.known =~= before.known);
            assert(self@.outbox =~= before.outbox);
            i = i + 1;
        }
        self.running = false;
        assert(self@.peers =~= s.peers.map_values(
            |c: PeerConnectionView| PeerConnectionView { connected: false, ..c },
        ));
        assert(ids_unique(self@.peers)) by {
            assert forall|a: int, b: int|
                0 <= a < self@.peers.len() && 0 <= b < self@.peers.len() && a != b implies #[trigger] self@.peers[a].info.id
                    != #[trigger] self@.peers[b].info.id by {
                assert(self@.peers[a].info.id == s.peers[a].info.id);
                assert(self@.peers[b].info.id == s.peers[b].info.id);
            }
        }
        Ok(())
    }

    /// Connect to each bootstrap node in turn, under an id drawn from the
    /// clock; a connection that fails is passed over.
    fn connect_to_bootstrap_nodes(&mut self) -> (res: (Ghost<Seq<PeerId>>, Ghost<Seq<u64>>, Ghost<Seq<u64>>))
        requires
            old(self).wf(),
        ensures
            final(self).wf(),
            res.0@.len() == old(self)@.config.bootstrap_nodes.len(),
            res.1@.len() == old(self)@.config.bootstrap_nodes.len(),
            res.2@.len() == old(self)@.config.bootstrap_nodes.len(),
            final(self)@ == bootstrap_fold(
                old(self)@,
                old(self)@.config.bootstrap_nodes,
                res.0@,
                res.1@,
                res.2@,
            ),
    {
        let ghost s = self@;
        let ghost nodes = s.config.bootstrap_nodes;
        let ghost mut ids: Seq<PeerId> = Seq::empty();
        let ghost mut seen: Seq<u64> = Seq::empty();
        let ghost mut nows: Seq<u64> = Seq::empty();
        let node_list = crate::peer::clone_strings(&self.config.bootstrap_nodes);
        let count = node_list.len();
        let mut i: usize = 0;
        while i < count
            invariant
                0 <= i <= count,
                count == nodes.len(),
                count == node_list@.len(),
                crate::peer::strings_view(node_list@) == nodes,
                self.wf(),
                self@.config == s.config,
                ids.len() == i,
                seen.len() == i,
                nows.len() == i,
                self@ == bootstrap_fold(s, nodes.take(i as int), ids, seen, nows),
            decreases count - i,
        {
            let address = node_list[i].clone();
            assert(address@ == nodes[i as int]);
            let peer_id = PeerId::random();
            let peer_info = PeerInfo::new(peer_id, address);
            let now = unix_now_secs();
            proof {
                let old_ids = ids;
                let old_seen = seen;
                let old_nows = nows;
                ids = ids.push(peer_id);
                seen = seen.push(peer_info.last_seen);
                nows = nows.push(now);
                lemma_bootstrap_fold_agree(s, nodes.take(i as int), old_ids, old_seen, old_nows, ids, seen, nows);
                assert(nodes.take(i as int + 1).drop_last() =~= nodes.take(i as int));
                assert(nodes.take(i as int + 1)[i as int] == nodes[i as int]);
                assert(peer_info@ == bootstrap_info(ids[i as int], nodes[i as int], seen[i as int])) by {
                    assert(peer_info@.capabilities =~= Seq::<Seq<char>>::empty());
                }
            }
            let _ = self.connect_at(peer_info, now);
            i = i + 1;
        }
        assert(nodes.take(count as int) =~= nodes);
        (Ghost(ids), Ghost(seen), Ghost(nows))
    }

    /// Start the network: when it is not running, mark it running and connect
    /// to the bootstrap nodes. Starting a running network changes nothing.
    pub fn start(&mut self) -> (res: Result<(), P2PError>)
        requires
            old(self).wf(),
        ensures
            final(self).wf(),
            res is Ok,
            exists|ids: Seq<PeerId>, seen: Seq<u64>, nows: Seq<u64>|
                final(self)@ == #[trigger] start_step(old(self)@, ids, seen, nows),
    {
        if self.running {
            assert(self@ == start_step(old(self)@, Seq::empty(), Seq::empty(), Seq::empty()));
            return Ok(());
        }
        self.shutdown = false;
        self.running = true;
        let (Ghost(ids), Ghost(seen), Ghost(nows)) = self.connect_to_bootstrap_nodes();
        assert(self@ == start_step(old(self)@, ids, seen, nows));
        Ok(())
    }

    /// One maintenance pass at time `now`: timed-out connections are closed,
    /// and each connection idle for more than half the ping interval gets a
    /// freshly drawn ping nonce. The pings to send are returned.
    pub fn maintenance_tick_at(&mut self, now: u64) -> (res: Vec<Outgoing>)
        requires
            old(self).wf(),
        ensures
            final(self).wf(),
            exists|nonces: Seq<u64>|
                {
                    &&& nonces.len() == old(self)@.peers.len()
                    &&& final(self)@ == tick_step(old(self)@, now, nonces)
                    &&& res@.map_values(|o: Outgoing| o@) == tick_pings(
                        old(self)@.peers,
                        now,
                        old(self)@.config.ping_interval,
                        old(self)@.config.connection_timeout,
                        nonces,
                    )
                },
    {
        let ghost s = self@;
        let interval = self.config.ping_interval;
        let timeout = self.config.connection_timeout;
        let ghost mut nonces: Seq<u64> = Seq::empty();
        let mut pings: Vec<Outgoing> = Vec::new();
        let mut i: usize = 0;
        while i < self.peers.len()
            invariant
                0 <= i <= self.peers@.len(),
                self@.peers.len() == s.peers.len(),
                interval == s.config.ping_interval,
                timeout == s.config.connection_timeout,
                nonces.len() == i,
                forall|j: int|
                    0 <= j < i ==> #[trigger] self@.peers[j] == tick_entry(
                        s.peers[j],
                        now,
                        interval,
                        timeout,
                        nonces[j],
                    ),
                forall|j: int| i <= j < self@.peers.len() ==> #[trigger] self@.peers[j] == s.peers[j],
                self@ == (NetworkView { peers: self@.peers, ..s }),
                pings@.map_values(|o: Outgoing| o@) == tick_pings(
                    s.peers.take(i as int),
                    now,
                    interval,
                    timeout,
                    nonces,
                ),
            decreases self.peers@.len() - i,
        {
            let ghost before = self@;
            let ghost nonces_before = nonces;
            let ghost pings_before = pings@.map_values(|o: Outgoing| o@);
            assert(s.peers.take(i as int + 1).drop_last() =~= s.peers.take(i as int));
            assert(s.peers.take(i as int + 1)[i as int] == s.peers[i as int]);
            let connected = self.peers[i].connected;
            let timed_out = self.peers[i].is_timed_out_at(now, timeout);
            let idle_long = now >= self.peers[i].last_activity && now - self.peers[i].last_activity
                > interval / 2;
            if connected && timed_out {
                self.peers[i].connected = false;
                assert(self@.peers =~= before.peers.update(
                    i as int,
                    PeerConnectionView { connected: false, ..before.peers[i as int] },
                ));
                proof {
                    nonces = nonces.push(0);
                }
            } else if connected && idle_long {
                let nonce = random_u64();
                self.peers[i].last_ping_nonce = Some(nonce);
                assert(self@.peers =~= before.peers.update(
                    i as int,
                    PeerConnectionView { last_ping_nonce: Some(nonce), ..before.peers[i as int] },
                ));
                let id = self.peers[i].info.id;
                pings.push(Outgoing { target: id, message: Message::Ping { nonce, timestamp: now } });
                proof {
                    nonces = nonces.push(nonce);
                    assert(pings@.map_values(|o: Outgoing| o@) =~= pings_before.push(
                        OutgoingView {
                            target: id,
                            message: MessageView::Ping { nonce, timestamp: now },
                        },
                    ));
                }
            } else {
                assert(self@.peers =~= before.peers);
                proof {
                    nonces = nonces.push(0);
                }
            }
            assert(pings@.map_values(|o: Outgoing| o@) == tick_pings(
                s.peers.take(i as int + 1),
                now,
                interval,
                timeout,
                nonces,
            )) by {
                let t = s.peers.take(i as int + 1);
                lemma_tick_pings_agree(s.peers.take(i as int), now, interval, timeout, nonces_before, nonces);
                assert(t.len() - 1 == i);
                assert(t[i as int] == s.peers[i as int]);
                assert(t.drop_last() =~= s.peers.take(i as int));
            }
            assert(self@.peers[i as int] == tick_entry(s.peers[i as int], now, interval, timeout, nonces[i as int]));
            assert forall|j: int| 0 <= j < i implies #[trigger] self@.peers[j] == tick_entry(
                s.peers[j],
                now,
                interval,
                timeout,
                nonces[j],
            ) by {
                assert(self@.peers[j] == before.peers[j]);
            }
            assert forall|j: int| i + 1 <= j < self@.peers.len() implies #[trigger] self@.peers[j]
                == s.peers[j] by {
                assert(self@.peers[j] == before.peers[j]);
            }
            assert(self@.known =~= before.known);
            assert(self@.outbox =~= before.outbox);
            i = i + 1;
        }
        assert(self@.peers =~= tick_step(s, now, nonces).peers);
        assert(s.peers.take(s.peers.len() as int) =~= s.peers);
        assert(ids_unique(self@.peers)) by {
            assert forall|a: int, b: int|
                0 <= a < self@.peers.len() && 0 <= b < self@.peers.len() && a != b implies #[trigger] self@.peers[a].info.id
                    != #[trigger] self@.peers[b].info.id by {
                assert(self@.peers[a].info.id == s.peers[a].info.id);
                assert(self@.peers[b].info.id == s.peers[b].info.id);
            }
        }
        pings
    }

    /// One maintenance pass at the clock's current reading.
    pub fn maintenance_tick(&mut self) -> (res: Vec<Outgoing>)
        requires
            old(self).wf(),
        ensures
            final(self).wf(),
            exists|now: u64, nonces: Seq<u64>|
                {
                    &&& nonces.len() == old(self)@.peers.len()
                    &&& final(self)@ == #[trigger] tick_step(old(self)@, now, nonces)
                    &&& res@.map_values(|o: Outgoing| o@) == tick_pings(
                        old(self)@.peers,
                        now,
                        old(self)@.config.ping_interval,
                        old(self)@.config.connection_timeout,
                        nonces,
                    )
                },
    {
        let now = unix_now_secs();
        self.maintenance_tick_at(now)
    }

    /// Take every queued message, oldest first, leaving the queue empty.
    pub fn take_outbox(&mut self) -> (res: Vec<Outgoing>)
        requires
            old(self).wf(),
        ensures
            final(self).wf(),
            res@.map_values(|o: Outgoing| o@) == old(self)@.outbox,
            final(self)@ == (NetworkView { outbox: Seq::empty(), ..old(self)@ }),
    {
        let mut taken: Vec<Outgoing> = Vec::new();
        std::mem::swap(&mut taken, &mut self.outbox);
        assert(self@.outbox =~= Seq::<OutgoingView>::empty());
        assert(self@.peers =~= old(self)@.peers);
        assert(self@.known =~= old(self)@.known);
        taken
    }
}

} // verus!

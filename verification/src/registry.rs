//! The registered peer connections and the gauge that counts them.
use dashmap::DashMap;
use std::sync::Arc;
use vstd::prelude::*;
use webrtc::peer_connection::RTCPeerConnection;

use crate::metrics::{
    decrement_active_peers, increment_active_peers, metric_total, Change, Metric, MetricUpdate,
};

verus! {

#[verifier::external_type_specification]
#[verifier::external_body]
#[verifier::reject_recursive_types(K)]
#[verifier::reject_recursive_types(V)]
#[verifier::reject_recursive_types(S)]
pub struct ExDashMap<K, V, S>(DashMap<K, V, S>);

#[verifier::external_type_specification]
#[verifier::external_body]
pub struct ExPeerConnection(RTCPeerConnection);

/// The connections that a map holds, by peer ID. A map changes only through
/// the functions of this module, which take it by exclusive reference.
pub uninterp spec fn connections_held(
    peers: DashMap<String, Arc<RTCPeerConnection>>,
) -> Map<Seq<char>, Arc<RTCPeerConnection>>;

/// Calls `dashmap::DashMap::new`: the map is empty.
#[verifier::external_body]
fn new_map() -> (peers: DashMap<String, Arc<RTCPeerConnection>>)
    ensures
        (connections_held(peers) == Map::<Seq<char>, Arc<RTCPeerConnection>>::empty()),
{
    DashMap::new()
}

/// Calls `dashmap::DashMap::insert`: the connection is held under the ID, in
/// place of one that was, and nothing else changes.
#[verifier::external_body]
fn insert(
    peers: &mut DashMap<String, Arc<RTCPeerConnection>>,
    peer_id: String,
    pc: Arc<RTCPeerConnection>,
)
    ensures
        connections_held(*final(peers)) == connections_held(*old(peers)).insert(peer_id@, pc),
{
    peers.insert(peer_id, pc);
}

/// Calls `dashmap::DashMap::remove`: what was held under the ID is handed out,
/// and nothing else changes.
#[verifier::external_body]
fn remove(peers: &mut DashMap<String, Arc<RTCPeerConnection>>, peer_id: &str) -> (removed: Option<
    (String, Arc<RTCPeerConnection>),
>)
    ensures
        connections_held(*final(peers)) == connections_held(*old(peers)).remove(peer_id@),
        removed is Some <==> connections_held(*old(peers)).contains_key(peer_id@),
        removed matches Some(entry) ==> entry.0@ == peer_id@ && entry.1 == connections_held(
            *old(peers),
        )[peer_id@],
{
    peers.remove(peer_id)
}

/// The connections of `held` in the order of these IDs, which are all of them.
pub open spec fn connections_in_order(
    held: Map<Seq<char>, Arc<RTCPeerConnection>>,
    ids: Seq<Seq<char>>,
    connections: Seq<Arc<RTCPeerConnection>>,
) -> bool {
    &&& ids.no_duplicates()
    &&& ids.to_set() == held.dom()
    &&& connections.len() == ids.len()
    &&& forall|i: int| 0 <= i < ids.len() ==> #[trigger] connections[i] == held[ids[i]]
}

/// Walks `dashmap::DashMap::iter` and clones each handle: every connection
/// once, in no particular order.
#[verifier::external_body]
fn values(peers: &DashMap<String, Arc<RTCPeerConnection>>) -> (connections: Vec<
    Arc<RTCPeerConnection>,
>)
    ensures
        exists|ids: Seq<Seq<char>>| #[trigger]
            connections_in_order(connections_held(*peers), ids, connections@),
{
    peers.iter().map(|entry| Arc::clone(entry.value())).collect()
}

/// The states of a peer connection.
#[derive(Clone, Copy, Debug, PartialEq, Eq, Structural)]
pub enum ConnectionState {
    Unspecified,
    New,
    Connecting,
    Connected,
    Disconnected,
    Failed,
    Closed,
}

/// The states from which a peer is given up.
pub open spec fn is_terminal(state: ConnectionState) -> bool {
    state is Failed || state is Disconnected || state is Closed
}

/// The gauge's change when a peer is registered.
pub open spec fn joined_update() -> MetricUpdate {
    MetricUpdate { metric: Metric::PeersActive, change: Change::Rise }
}

/// The gauge's change when a peer is gone.
pub open spec fn left_update() -> MetricUpdate {
    MetricUpdate { metric: Metric::PeersActive, change: Change::Fall }
}

impl ConnectionState {
    /// Whether a peer in this state is given up.
    pub fn ends_peer(self) -> (ends: bool)
        ensures
            ends == is_terminal(self),
            ends <==> self is Failed || self is Disconnected || self is Closed,
    {
        match self {
            ConnectionState::Failed => true,
            ConnectionState::Disconnected => true,
            ConnectionState::Closed => true,
            _ => false,
        }
    }
}

/// The registered peer connections, by peer ID.
pub struct PeerRegistry {
    peers: DashMap<String, Arc<RTCPeerConnection>>,
}

impl View for PeerRegistry {
    type V = Map<Seq<char>, Arc<RTCPeerConnection>>;

    closed spec fn view(&self) -> Map<Seq<char>, Arc<RTCPeerConnection>> {
        connections_held(self.peers)
    }
}

impl PeerRegistry {
    /// No peers.
    pub fn new() -> (registry: PeerRegistry)
        ensures
            (registry@ == Map::<Seq<char>, Arc<RTCPeerConnection>>::empty()),
    {
        PeerRegistry { peers: new_map() }
    }

    /// Registers a peer's connection; the gauge rises.
    pub fn register(&mut self, peer_id: String, pc: Arc<RTCPeerConnection>) -> (update:
        MetricUpdate)
        ensures
            final(self)@ == old(self)@.insert(peer_id@, pc),
            update == joined_update(),
            update.metric == Metric::PeersActive,
            update.change == Change::Rise,
            final(self)@.contains_key(peer_id@),
            final(self)@[peer_id@] == pc,
            forall|other: Seq<char>|
                other != peer_id@ ==> (#[trigger] final(self)@.contains_key(other) <==> old(
                    self,
                )@.contains_key(other)) && final(self)@[other] == old(self)@[other],
            (final(self)@.dom(), seq![update]) == registry_after(
                old(self)@.dom(),
                RegistryEvent::Register { peer_id: peer_id@ },
            ),
    {
        insert(&mut self.peers, peer_id, pc);
        increment_active_peers()
    }

    /// A peer's connection changed state. The first terminal state takes the
    /// peer out and the gauge falls; further ones find no peer and change
    /// nothing.
    pub fn on_state_change(&mut self, peer_id: &str, state: ConnectionState) -> (update: Option<
        MetricUpdate,
    >)
        ensures
            final(self)@ == (if is_terminal(state) {
                old(self)@.remove(peer_id@)
            } else {
                old(self)@
            }),
            update == (if is_terminal(state) && old(self)@.contains_key(peer_id@) {
                Some(left_update())
            } else {
                None
            }),
            update is Some <==> old(self)@.contains_key(peer_id@) && (state is Failed
                || state is Disconnected || state is Closed),
            update matches Some(u) ==> u.metric == Metric::PeersActive && u.change == Change::Fall,
            final(self)@ == (if update is Some {
                old(self)@.remove(peer_id@)
            } else {
                old(self)@
            }),
            (final(self)@.dom(), optional(update)) == registry_after(
                old(self)@.dom(),
                RegistryEvent::StateChange { peer_id: peer_id@, state },
            ),
    {
        proof {
            if !old(self)@.contains_key(peer_id@) {
                assert(old(self)@.remove(peer_id@) =~= old(self)@);
            }
        }
        if state.ends_peer() {
            if remove(&mut self.peers, peer_id).is_some() {
                return Some(decrement_active_peers());
            }
        }
        None
    }

    /// Handles to all registered connections, each once, in no particular
    /// order.
    pub fn connections(&self) -> (connections: Vec<Arc<RTCPeerConnection>>)
        ensures
            exists|ids: Seq<Seq<char>>| #[trigger]
                connections_in_order(self@, ids, connections@),
            exists|ids: Seq<Seq<char>>|
                {
                    &&& #[trigger] ids.no_duplicates()
                    &&& ids.to_set() == self@.dom()
                    &&& connections@.len() == ids.len()
                    &&& forall|i: int|
                        0 <= i < ids.len() ==> #[trigger] connections@[i] == self@[ids[i]]
                },
    {
        assert(self@ == connections_held(self.peers));
        let connections = values(&self.peers);
        proof {
            let ids = choose|ids: Seq<Seq<char>>| #[trigger]
                connections_in_order(self@, ids, connections@);
            assert(ids.no_duplicates());
        }
        connections
    }
}

/// The update, if any, as a sequence.
pub open spec fn optional(update: Option<MetricUpdate>) -> Seq<MetricUpdate> {
    match update {
        Some(u) => seq![u],
        None => Seq::empty(),
    }
}

/// What happens to the registry.
pub enum RegistryEvent {
    Register { peer_id: Seq<char> },
    StateChange { peer_id: Seq<char>, state: ConnectionState },
}

/// The registered IDs after an event, and the gauge's change.
pub open spec fn registry_after(ids: Set<Seq<char>>, event: RegistryEvent) -> (
    Set<Seq<char>>,
    Seq<MetricUpdate>,
) {
    match event {
        RegistryEvent::Register { peer_id } => (ids.insert(peer_id), seq![joined_update()]),
        RegistryEvent::StateChange { peer_id, state } => if is_terminal(state) && ids.contains(
            peer_id,
        ) {
            (ids.remove(peer_id), seq![left_update()])
        } else {
            (ids, Seq::empty())
        },
    }
}

/// The registered IDs after these events, and every change of the gauge.
pub open spec fn registry_run(events: Seq<RegistryEvent>) -> (Set<Seq<char>>, Seq<MetricUpdate>)
    decreases events.len(),
{
    if events.len() == 0 {
        (Set::empty(), Seq::empty())
    } else {
        let before = registry_run(events.drop_last());
        let after = registry_after(before.0, events.last());
        (after.0, before.1 + after.1)
    }
}

/// Every peer is registered under an ID that is not in use.
pub open spec fn ids_are_fresh(events: Seq<RegistryEvent>) -> bool {
    forall|i: int|
        0 <= i < events.len() ==> ((#[trigger] events[i]) matches RegistryEvent::Register {
            peer_id,
        } ==> !registry_run(events.take(i)).0.contains(peer_id))
}

proof fn lemma_total_of_parts(a: Seq<MetricUpdate>, b: Seq<MetricUpdate>, metric: Metric)
    ensures
        metric_total(a + b, metric) == metric_total(a, metric) + metric_total(b, metric),
    decreases b.len(),
{
    if b.len() == 0 {
        assert(a + b == a);
    } else {
        assert((a + b).drop_last() == a + b.drop_last());
        lemma_total_of_parts(a, b.drop_last(), metric);
    }
}

proof fn lemma_total_of_one(update: MetricUpdate)
    ensures
        update.metric == Metric::PeersActive ==> metric_total(seq![update], Metric::PeersActive)
            == crate::metrics::change_amount(update.change),
{
    assert(seq![update].drop_last() == Seq::<MetricUpdate>::empty());
    assert(metric_total(Seq::<MetricUpdate>::empty(), Metric::PeersActive) == 0);
}

/// The gauge shows the number of registered peers, whatever states their
/// connections go through and however often a terminal state is reported.
pub proof fn gauge_counts_registered_peers(events: Seq<RegistryEvent>)
    requires
        ids_are_fresh(events),
    ensures
        registry_run(events).0.finite(),
        metric_total(registry_run(events).1, Metric::PeersActive) == registry_run(events).0.len(),
    decreases events.len(),
{
    if events.len() > 0 {
        let shorter = events.drop_last();
        assert forall|i: int| 0 <= i < shorter.len() implies ((
        #[trigger] shorter[i]) matches RegistryEvent::Register { peer_id } ==> !registry_run(
            shorter.take(i),
        ).0.contains(peer_id)) by {
            assert(shorter[i] == events[i]);
            assert(shorter.take(i) == events.take(i));
        }
        gauge_counts_registered_peers(shorter);
        let before = registry_run(shorter);
        let after = registry_after(before.0, events.last());
        assert(events.take(events.len() - 1) == shorter);
        assert(events[events.len() - 1] == events.last());
        lemma_total_of_parts(before.1, after.1, Metric::PeersActive);
        lemma_total_of_one(joined_update());
        lemma_total_of_one(left_update());
        assert(metric_total(Seq::<MetricUpdate>::empty(), Metric::PeersActive) == 0);
    }
}

/// After one terminal state of a peer, another one changes nothing.
pub proof fn second_terminal_state_is_ignored(
    ids: Set<Seq<char>>,
    peer_id: Seq<char>,
    first: ConnectionState,
    second: ConnectionState,
)
    requires
        is_terminal(first),
    ensures
        ({
            let once = registry_after(ids, RegistryEvent::StateChange { peer_id, state: first }).0;
            registry_after(once, RegistryEvent::StateChange { peer_id, state: second }) == (
                once,
                Seq::<MetricUpdate>::empty(),
            )
        }),
{
}

/// A peer is given up exactly when its connection has failed, is disconnected or
/// is closed. Then it, and no other peer, is taken out, and the gauge falls by
/// one; any other state, and any state of a peer that is not there, changes
/// nothing.
pub proof fn only_terminal_states_take_a_peer_out(
    ids: Set<Seq<char>>,
    peer_id: Seq<char>,
    state: ConnectionState,
)
    ensures
        ({
            let after = registry_after(ids, RegistryEvent::StateChange { peer_id, state });
            let ends = ids.contains(peer_id) && (state == ConnectionState::Failed || state
                == ConnectionState::Disconnected || state == ConnectionState::Closed);
            &&& forall|id: Seq<char>| #[trigger]
                after.0.contains(id) <==> ids.contains(id) && !(ends && id == peer_id)
            &&& after.1 == if ends {
                seq![MetricUpdate { metric: Metric::PeersActive, change: Change::Fall }]
            } else {
                Seq::empty()
            }
        }),
{
}

/// A peer that is registered is there, besides all that were, and the gauge rises
/// by one.
pub proof fn registering_adds_one_peer(ids: Set<Seq<char>>, peer_id: Seq<char>)
    ensures
        ({
            let after = registry_after(ids, RegistryEvent::Register { peer_id });
            &&& forall|id: Seq<char>| #[trigger]
                after.0.contains(id) <==> ids.contains(id) || id == peer_id
            &&& after.1 == seq![MetricUpdate { metric: Metric::PeersActive, change: Change::Rise }]
        }),
{
}

} // verus!

//! State synchronization between replicas: the messages replicas exchange,
//! and the decisions a replica takes on each, as updates of its local state,
//! its vector clock and what it knows of its peers, together with the
//! messages it sends in answer. Content hashes are those of the encoded
//! states, which the caller computes.
use crate::cas::integrity::BlockHash;
use crate::crdt::clock_map::{get0, join};
use crate::crdt::vector_clock::{dominates, happens_before, VectorClock};
use crate::crdt::{ReplicaId, CRDT};
use std::collections::BTreeMap;
use vstd::std_specs::btree::increasing_seq;
use vstd::std_specs::cmp::OrdSpec;
use vstd::std_specs::iter::IteratorSpec;
use vstd::prelude::*;

verus! {

broadcast use vstd::array::group_array_axioms;

/// A message between replicas.
pub enum SyncMessage<T: CRDT> {
    /// A summary of a replica's state: its clock and content hash.
    StateSummary { replica_id: ReplicaId, vector_clock: VectorClock, content_hash: BlockHash },
    /// A replica's full state.
    FullState { replica_id: ReplicaId, state: T, vector_clock: VectorClock },
    /// A state to merge as an update.
    DeltaUpdate { replica_id: ReplicaId, base_vector_clock: VectorClock, delta: T },
    /// A request for a replica's state.
    StateRequest { replica_id: ReplicaId, requested_vector_clock: Option<VectorClock> },
    /// An acknowledgment with the sender's clock.
    Acknowledgment { replica_id: ReplicaId, ack_vector_clock: VectorClock },
}

/// Parameters of synchronization.
#[derive(Debug, Clone, Copy, PartialEq, Eq, Structural)]
pub struct SyncConfig {
    /// Interval of anti-entropy rounds, in milliseconds.
    pub anti_entropy_interval_ms: u64,
    /// Largest message, in bytes.
    pub max_message_size_bytes: usize,
    /// Retries of a failed synchronization.
    pub max_retries: u32,
    /// Timeout of a synchronization, in milliseconds.
    pub sync_timeout_ms: u64,
    /// Whether deltas are compressed.
    pub enable_delta_compression: bool,
}

impl Default for SyncConfig {
    fn default() -> (r: SyncConfig)
        ensures
            r == (SyncConfig {
                anti_entropy_interval_ms: 30000,
                max_message_size_bytes: 1048576,
                max_retries: 3,
                sync_timeout_ms: 10000,
                enable_delta_compression: true,
            }),
    {
        SyncConfig {
            anti_entropy_interval_ms: 30000,
            max_message_size_bytes: 1048576,
            max_retries: 3,
            sync_timeout_ms: 10000,
            enable_delta_compression: true,
        }
    }
}

/// What a replica knows of a peer: its last clock and content hash.
pub struct PeerSyncState {
    pub vector_clock: VectorClock,
    pub content_hash: BlockHash,
}

/// Statistics of synchronization.
pub struct SyncStatistics {
    pub local_replica_id: ReplicaId,
    pub peer_count: usize,
    pub local_vector_clock: VectorClock,
}

/// A message to send, with its destination.
pub type Outgoing<T> = (ReplicaId, SyncMessage<T>);

/// Synchronization of one replica's state with its peers.
pub struct SyncManager<T: CRDT> {
    replica_id: ReplicaId,
    local_state: T,
    local_vector_clock: VectorClock,
    peer_states: BTreeMap<u128, PeerSyncState>,
    config: SyncConfig,
}

/// Whether a replica holding a state with `local_hash` at clock `local`
/// should ask for the state of a peer that reports `remote_hash` at clock
/// `remote`: the hashes differ and neither clock dominates the other.
pub open spec fn needs_sync(
    local_hash: Seq<u8>,
    local: Map<u128, u64>,
    remote_hash: Seq<u8>,
    remote: Map<u128, u64>,
) -> bool {
    remote_hash != local_hash && !dominates(local, remote) && !dominates(remote, local)
}

/// A replica asks a peer for its state exactly when their state hashes
/// differ and their clocks are concurrent: never when its own clock is at or
/// after the peer's, never when the peer's clock is at or after its own, and
/// never when the hashes agree.
pub proof fn state_requested_only_when_concurrent(
    local_hash: Seq<u8>,
    local: Map<u128, u64>,
    remote_hash: Seq<u8>,
    remote: Map<u128, u64>,
)
    ensures
        needs_sync(local_hash, local, remote_hash, remote) <==> (remote_hash != local_hash
            && !happens_before(remote, local) && !happens_before(local, remote) && local != remote),
{
}

/// Whether two hashes are equal.
fn same_hash(a: &BlockHash, b: &BlockHash) -> (r: bool)
    ensures
        r == (a@ == b@),
{
    let mut i: usize = 0;
    while i < 32
        invariant
            i <= 32,
            forall|j: int| 0 <= j < i ==> a@[j] == b@[j],
        decreases 32 - i,
    {
        if a[i] != b[i] {
            assert(a@[i as int] != b@[i as int]);
            return false;
        }
        i = i + 1;
    }
    assert(a@ =~= b@);
    true
}

impl<T: CRDT> SyncManager<T> {
    /// This replica.
    pub closed spec fn replica(&self) -> ReplicaId {
        self.replica_id
    }

    /// The local state.
    pub closed spec fn state(&self) -> T::V {
        self.local_state@
    }

    /// The local vector clock.
    pub closed spec fn clock(&self) -> Map<u128, u64> {
        self.local_vector_clock@
    }

    /// The peers, with their last clock and content hash.
    pub closed spec fn peers(&self) -> Map<u128, (Map<u128, u64>, Seq<u8>)> {
        self.peer_states@.map_values(|p: PeerSyncState| (p.vector_clock@, p.content_hash@))
    }

    /// The configuration.
    pub closed spec fn configuration(&self) -> SyncConfig {
        self.config
    }

    /// A manager for a replica starting from a state; its clock starts at 1
    /// for the replica.
    pub fn new(replica_id: ReplicaId, initial_state: T, config: SyncConfig) -> (r: SyncManager<T>)
        ensures
            r.replica() == replica_id,
            r.state() == initial_state@,
            r.clock() == Map::<u128, u64>::empty().insert(replica_id.0, 1),
            r.peers() == Map::<u128, (Map<u128, u64>, Seq<u8>)>::empty(),
            r.configuration() == config,
    {
        let mut local_vector_clock = VectorClock::new();
        local_vector_clock.increment(replica_id);
        let r = SyncManager {
            replica_id,
            local_state: initial_state,
            local_vector_clock,
            peer_states: BTreeMap::new(),
            config,
        };
        assert(r.peers() =~= Map::<u128, (Map<u128, u64>, Seq<u8>)>::empty());
        r
    }

    /// The local state.
    pub fn local_state(&self) -> (r: &T)
        ensures
            r@ == self.state(),
    {
        &self.local_state
    }

    /// Replace the local state, advancing this replica's clock.
    pub fn update_local_state(&mut self, new_state: T)
        requires
            get0(old(self).clock(), old(self).replica().0) < u64::MAX,
        ensures
            final(self).state() == new_state@,
            final(self).clock() == old(self).clock().insert(
                old(self).replica().0,
                (get0(old(self).clock(), old(self).replica().0) + 1) as u64,
            ),
            final(self).peers() == old(self).peers(),
            final(self).replica() == old(self).replica(),
    {
        self.local_state = new_state;
        self.local_vector_clock.increment(self.replica_id);
    }

    /// Start knowing a peer, with an empty clock and a zero hash; returns the
    /// request for its state.
    pub fn add_peer(&mut self, peer_id: ReplicaId) -> (r: Outgoing<T>)
        ensures
            final(self).peers() == old(self).peers().insert(
                peer_id.0,
                (Map::<u128, u64>::empty(), Seq::new(32, |i: int| 0u8)),
            ),
            final(self).state() == old(self).state(),
            final(self).clock() == old(self).clock(),
            final(self).replica() == old(self).replica(),
            r.0 == peer_id,
            r.1 matches SyncMessage::StateRequest { replica_id, requested_vector_clock }
                && replica_id == old(self).replica() && requested_vector_clock is None,
    {
        let zero = [0u8; 32];
        assert(zero@ =~= Seq::new(32, |i: int| 0u8));
        self.peer_states.insert(
            peer_id.0,
            PeerSyncState { vector_clock: VectorClock::new(), content_hash: zero },
        );
        proof {
            assert(self.peers() =~= old(self).peers().insert(
                peer_id.0,
                (Map::<u128, u64>::empty(), Seq::new(32, |i: int| 0u8)),
            ));
        }
        (peer_id, SyncMessage::StateRequest { replica_id: self.replica_id, requested_vector_clock: None })
    }

    /// Forget a peer.
    pub fn remove_peer(&mut self, peer_id: &ReplicaId)
        ensures
            final(self).peers() == old(self).peers().remove(peer_id.0),
            final(self).state() == old(self).state(),
            final(self).clock() == old(self).clock(),
            final(self).replica() == old(self).replica(),
    {
        let _ = self.peer_states.remove(&peer_id.0);
        proof {
            assert(self.peers() =~= old(self).peers().remove(peer_id.0));
        }
    }

    /// Record a peer's summary; where the states differ and neither clock
    /// dominates, returns a request for the peer's state.
    pub fn handle_state_summary(
        &mut self,
        replica_id: ReplicaId,
        vector_clock: VectorClock,
        content_hash: BlockHash,
        local_hash: &BlockHash,
    ) -> (r: Vec<Outgoing<T>>)
        ensures
            final(self).peers() == old(self).peers().insert(
                replica_id.0,
                (vector_clock@, content_hash@),
            ),
            final(self).state() == old(self).state(),
            final(self).clock() == old(self).clock(),
            final(self).replica() == old(self).replica(),
            needs_sync(local_hash@, old(self).clock(), content_hash@, vector_clock@) ==> {
                &&& r@.len() == 1
                &&& r@[0].0 == replica_id
                &&& r@[0].1 matches SyncMessage::StateRequest {
                    replica_id: me,
                    requested_vector_clock: Some(c),
                } && me == old(self).replica() && c@ == vector_clock@
            },
            !needs_sync(local_hash@, old(self).clock(), content_hash@, vector_clock@) ==> r@.len()
                == 0,
            (happens_before(vector_clock@, old(self).clock()) || vector_clock@ == old(self).clock()
                || happens_before(old(self).clock(), vector_clock@) || content_hash@ == local_hash@)
                ==> r@.len() == 0,
    {
        let sync = !same_hash(&content_hash, local_hash) && !self.local_vector_clock.dominates(
            &vector_clock,
        ) && !vector_clock.dominates(&self.local_vector_clock);
        let requested = vector_clock.duplicate_clock();
        self.peer_states.insert(replica_id.0, PeerSyncState { vector_clock, content_hash });
        proof {
            assert(self.peers() =~= old(self).peers().insert(
                replica_id.0,
                (requested@, content_hash@),
            ));
        }
        let mut out: Vec<Outgoing<T>> = Vec::new();
        if sync {
            out.push(
                (
                    replica_id,
                    SyncMessage::StateRequest {
                        replica_id: self.replica_id,
                        requested_vector_clock: Some(requested),
                    },
                ),
            );
        }
        out
    }

    /// Merge a peer's full state: the clocks are joined and this replica's
    /// entry advanced, the peer's clock and state hash recorded, and an
    /// acknowledgment with the new clock returned.
    pub fn handle_full_state(
        &mut self,
        replica_id: ReplicaId,
        state: T,
        vector_clock: VectorClock,
        state_hash: BlockHash,
    ) -> (r: Outgoing<T>)
        requires
            get0(join(old(self).clock(), vector_clock@), old(self).replica().0) < u64::MAX,
        ensures
            final(self).state() == T::merge_views(old(self).state(), state@),
            final(self).clock() == join(old(self).clock(), vector_clock@).insert(
                old(self).replica().0,
                (get0(join(old(self).clock(), vector_clock@), old(self).replica().0) + 1) as u64,
            ),
            final(self).peers() == old(self).peers().insert(
                replica_id.0,
                (vector_clock@, state_hash@),
            ),
            final(self).replica() == old(self).replica(),
            r.0 == replica_id,
            r.1 matches SyncMessage::Acknowledgment { replica_id: me, ack_vector_clock: c } && me
                == old(self).replica() && c@ == final(self).clock(),
    {
        self.local_state.merge(&state);
        self.local_vector_clock.update(&vector_clock);
        self.local_vector_clock.increment(self.replica_id);
        let ghost remote = vector_clock@;
        self.peer_states.insert(
            replica_id.0,
            PeerSyncState { vector_clock, content_hash: state_hash },
        );
        proof {
            assert(self.peers() =~= old(self).peers().insert(replica_id.0, (remote, state_hash@)));
        }
        (
            replica_id,
            SyncMessage::Acknowledgment {
                replica_id: self.replica_id,
                ack_vector_clock: self.local_vector_clock.duplicate_clock(),
            },
        )
    }

    /// Merge an update from a peer, advancing this replica's clock.
    pub fn handle_delta_update(&mut self, replica_id: ReplicaId, delta: T)
        requires
            get0(old(self).clock(), old(self).replica().0) < u64::MAX,
        ensures
            final(self).state() == T::merge_views(old(self).state(), delta@),
            final(self).clock() == old(self).clock().insert(
                old(self).replica().0,
                (get0(old(self).clock(), old(self).replica().0) + 1) as u64,
            ),
            final(self).peers() == old(self).peers(),
            final(self).replica() == old(self).replica(),
    {
        self.local_state.merge(&delta);
        self.local_vector_clock.increment(self.replica_id);
    }

    /// Answer a request with this replica's full state and clock.
    pub fn handle_state_request(&self, replica_id: ReplicaId) -> (r: Outgoing<T>)
        ensures
            r.0 == replica_id,
            r.1 matches SyncMessage::FullState { replica_id: me, state, vector_clock } && me
                == self.replica() && state@ == self.state() && vector_clock@ == self.clock(),
    {
        (
            replica_id,
            SyncMessage::FullState {
                replica_id: self.replica_id,
                state: self.local_state.duplicate(),
                vector_clock: self.local_vector_clock.duplicate_clock(),
            },
        )
    }

    /// Join an acknowledged clock into what is known of a peer, if known.
    pub fn handle_acknowledgment(&mut self, replica_id: ReplicaId, ack_vector_clock: VectorClock)
        ensures
            old(self).peers().contains_key(replica_id.0) ==> final(self).peers() == old(
                self,
            ).peers().insert(
                replica_id.0,
                (
                    join(old(self).peers()[replica_id.0].0, ack_vector_clock@),
                    old(self).peers()[replica_id.0].1,
                ),
            ),
            !old(self).peers().contains_key(replica_id.0) ==> final(self).peers() == old(
                self,
            ).peers(),
            final(self).state() == old(self).state(),
            final(self).clock() == old(self).clock(),
            final(self).replica() == old(self).replica(),
    {
        match self.peer_states.remove(&replica_id.0) {
            Some(p) => {
                let mut vc = p.vector_clock;
                vc.update(&ack_vector_clock);
                let ghost joined = vc@;
                self.peer_states.insert(
                    replica_id.0,
                    PeerSyncState { vector_clock: vc, content_hash: p.content_hash },
                );
                proof {
                    assert(self.peers() =~= old(self).peers().insert(
                        replica_id.0,
                        (joined, p.content_hash@),
                    ));
                }
            },
            None => {
                proof {
                    assert(self.peers() =~= old(self).peers());
                }
            },
        }
    }

    /// Dispatch a message from a peer to its handler; returns the messages
    /// to send. `local_hash` is the hash of the local state's encoding and
    /// `state_hash` that of the state a `FullState` message carries.
    pub fn handle_message(
        &mut self,
        message: SyncMessage<T>,
        local_hash: &BlockHash,
        state_hash: &BlockHash,
    ) -> (r: Vec<Outgoing<T>>)
        requires
            message is FullState ==> get0(
                join(old(self).clock(), message->FullState_vector_clock@),
                old(self).replica().0,
            ) < u64::MAX,
            message is DeltaUpdate ==> get0(old(self).clock(), old(self).replica().0) < u64::MAX,
        ensures
            match message {
                SyncMessage::DeltaUpdate { delta, .. } => final(self).state() == T::merge_views(
                    old(self).state(),
                    delta@,
                ) && r@.len() == 0,
                SyncMessage::FullState { state, .. } => final(self).state() == T::merge_views(
                    old(self).state(),
                    state@,
                ) && r@.len() == 1,
                SyncMessage::StateRequest { replica_id, .. } => final(self).state() == old(
                    self,
                ).state() && r@.len() == 1 && r@[0].0 == replica_id,
                _ => final(self).state() == old(self).state(),
            },
            final(self).replica() == old(self).replica(),
    {
        match message {
            SyncMessage::StateSummary { replica_id, vector_clock, content_hash } => {
                self.handle_state_summary(replica_id, vector_clock, content_hash, local_hash)
            },
            SyncMessage::FullState { replica_id, state, vector_clock } => {
                let out = self.handle_full_state(replica_id, state, vector_clock, *state_hash);
                let mut v = Vec::new();
                v.push(out);
                v
            },
            SyncMessage::DeltaUpdate { replica_id, delta, .. } => {
                self.handle_delta_update(replica_id, delta);
                Vec::new()
            },
            SyncMessage::StateRequest { replica_id, .. } => {
                let out = self.handle_state_request(replica_id);
                let mut v = Vec::new();
                v.push(out);
                v
            },
            SyncMessage::Acknowledgment { replica_id, ack_vector_clock } => {
                self.handle_acknowledgment(replica_id, ack_vector_clock);
                Vec::new()
            },
        }
    }

    /// A summary of the local state for every peer, in increasing order of
    /// peer id.
    pub fn start_anti_entropy(&self, local_hash: &BlockHash) -> (r: Vec<Outgoing<T>>)
        ensures
            r@.len() == self.peers().dom().len(),
            forall|i: int| 0 <= i < r@.len() ==> self.peers().contains_key((#[trigger] r@[i]).0.0),
            forall|i: int, j: int| 0 <= i < j < r@.len() ==> (#[trigger] r@[i]).0.0 < (#[trigger] r@[j]).0.0,
            forall|i: int|
                0 <= i < r@.len() ==> ((#[trigger] r@[i]).1 matches SyncMessage::StateSummary {
                    replica_id,
                    vector_clock,
                    content_hash,
                } && replica_id == self.replica() && vector_clock@ == self.clock() && content_hash
                    == *local_hash),
    {
        let mut out: Vec<Outgoing<T>> = Vec::new();
        let ghost m = self.peer_states@;
        let ghost mut done: Set<u128> = Set::empty();
        let iter = self.peer_states.iter();
        proof {
            broadcast use vstd::laws_cmp::group_laws_cmp;
            broadcast use vstd::std_specs::btree::axiom_key_obeys_cmp_spec_meaning;
            broadcast use vstd::std_specs::btree::axiom_increasing_seq_meaning;
            let ks = iter.remaining().map_values(|kv: (&u128, &PeerSyncState)| *kv.0);
            assert(increasing_seq(ks));
            assert forall|a: int, b: int| 0 <= a < b < iter.remaining().len() implies *iter.remaining()[a].0 < *iter.remaining()[b].0 by {
                assert(ks[a] == *iter.remaining()[a].0);
                assert(ks[b] == *iter.remaining()[b].0);
                assert(ks[a].cmp_spec(&ks[b]) is Less);
            }
        }
        for kv in it: iter
            invariant
                m == self.peer_states@,
                forall|j: int| 0 <= j < it.seq().len() ==> m.contains_key(*it.seq()[j].0),
                forall|a: int, b: int| 0 <= a < b < it.seq().len() ==> *it.seq()[a].0 < *it.seq()[b].0,
                done == Set::new(|k: u128| exists|j: int| 0 <= j < it.index() && *it.seq()[j].0 == k),
                forall|q: u128| done.contains(q) ==> exists|j: int| 0 <= j < out@.len() && (#[trigger] out@[j]).0.0 == q,
                out@.len() == it.index(),
                forall|j: int| 0 <= j < it.index() ==> (#[trigger] out@[j]).0.0 == *it.seq()[j].0,
                forall|i: int|
                    0 <= i < out@.len() ==> ((#[trigger] out@[i]).1 matches SyncMessage::StateSummary {
                        replica_id,
                        vector_clock,
                        content_hash,
                    } && replica_id == self.replica() && vector_clock@ == self.clock()
                        && content_hash == *local_hash),
        {
            let k = *kv.0;
            let ghost old_out = out@;
            let ghost old_done = done;
            out.push(
                (
                    ReplicaId(k),
                    SyncMessage::StateSummary {
                        replica_id: self.replica_id,
                        vector_clock: self.local_vector_clock.duplicate_clock(),
                        content_hash: *local_hash,
                    },
                ),
            );
            proof {
                let n = out@.len() - 1;
                assert(out@[n].0.0 == k);
                assert forall|q: u128| old_done.contains(q) implies exists|j: int| 0 <= j < out@.len() && (#[trigger] out@[j]).0.0 == q by {
                    let j = choose|j: int| 0 <= j < old_out.len() && (#[trigger] old_out[j]).0.0 == q;
                    assert(out@[j] == old_out[j]);
                }
                done = done.insert(k);
                assert(done =~= Set::new(|q: u128| exists|j: int| 0 <= j < it.index() + 1 && *it.seq()[j].0 == q));
            }
        }
        proof {
            assert forall|k: u128| m.contains_key(k) implies done.contains(k) by {
                broadcast use vstd::std_specs::btree::axiom_spec_btree_map_iter;
            }
            let ids = out@.map_values(|o: Outgoing<T>| o.0.0);
            assert(ids.no_duplicates()) by {
                assert forall|a: int, b: int| 0 <= a < ids.len() && 0 <= b < ids.len() && a != b implies ids[a] != ids[b] by {
                    assert(out@[a].0.0 == ids[a]);
                    assert(out@[b].0.0 == ids[b]);
                }
            }
            assert(ids.to_set() =~= m.dom()) by {
                assert forall|k: u128| ids.to_set().contains(k) implies m.contains_key(k) by {
                    let j = choose|j: int| 0 <= j < ids.len() && ids[j] == k;
                    assert(out@[j].0.0 == ids[j]);
                }
                assert forall|k: u128| m.contains_key(k) implies ids.to_set().contains(k) by {
                    assert(done.contains(k));
                    let j = choose|j: int| 0 <= j < out@.len() && (#[trigger] out@[j]).0.0 == k;
                    assert(out@[j].0.0 == ids[j]);
                }
            }
            ids.unique_seq_to_set();
            assert(self.peers().dom() =~= m.dom());
        }
        out
    }

    /// Statistics: this replica, its number of peers and its clock.
    pub fn sync_statistics(&self) -> (r: SyncStatistics)
        ensures
            r.local_replica_id == self.replica(),
            r.peer_count == self.peers().dom().len(),
            r.local_vector_clock@ == self.clock(),
    {
        proof {
            broadcast use vstd::std_specs::btree::axiom_spec_btree_map_len;
            assert(self.peers().dom() =~= self.peer_states@.dom());
        }
        SyncStatistics {
            local_replica_id: self.replica_id,
            peer_count: self.peer_states.len(),
            local_vector_clock: self.local_vector_clock.duplicate_clock(),
        }
    }
}

} // verus!

use std::cmp::Ordering;
use prism::crdt::grow_only_counter::GrowOnlyCounter;
use prism::crdt::grow_only_set::GrowOnlySet;
use prism::crdt::lww_register::LWWRegister;
use prism::crdt::metadata::{CRDTContainer, CRDTMetadata, CRDTStatistics};
use prism::crdt::mv_register::{MVRegister, VersionedValue};
use prism::crdt::or_set::ORSet;
use prism::crdt::pn_counter::{PNCounter, PNCounterOp};
use prism::crdt::rga::RGA;
use prism::crdt::sync::{SyncConfig, SyncManager, SyncMessage};
use prism::crdt::two_phase_set::TwoPhaseSet;
use prism::crdt::utils::{test_associativity, test_commutativity, test_idempotency, verify_crdt_laws};
use prism::crdt::vector_clock::VectorClock;
use prism::crdt::{HybridTimestamp, LogicalTimestamp, PhysicalTimestamp, ReplicaId, CRDT};

#[test]
fn test_gset_creation() {
    let set: GrowOnlySet<i32> = GrowOnlySet::new();
    assert!(set.is_empty());
    assert_eq!(set.len(), 0);
}

#[test]
fn test_gset_add() {
    let mut set = GrowOnlySet::new();

    assert!(set.add(1));
    assert!(!set.add(1));
    assert!(set.add(2));

    assert_eq!(set.len(), 2);
    assert!(set.contains(&1));
    assert!(set.contains(&2));
    assert!(!set.contains(&3));
}

#[test]
fn test_gset_merge() {
    let mut set1 = GrowOnlySet::new();
    set1.add(1);
    set1.add(2);

    let mut set2 = GrowOnlySet::new();
    set2.add(2);
    set2.add(3);

    set1.merge(&set2);

    assert_eq!(set1.len(), 3);
    assert!(set1.contains(&1));
    assert!(set1.contains(&2));
    assert!(set1.contains(&3));
}

#[test]
fn test_gset_operations() {
    let mut set1 = GrowOnlySet::new();
    set1.add(1);
    set1.add(2);
    set1.add(3);

    let mut set2 = GrowOnlySet::new();
    set2.add(2);
    set2.add(3);
    set2.add(4);

    assert!(set2.is_subset(&set1.union(&set2)));

    let intersection = set1.intersection(&set2);
    assert_eq!(intersection.len(), 2);
    assert!(intersection.contains(&2));
    assert!(intersection.contains(&3));

    let difference = set1.difference(&set2);
    assert_eq!(difference.len(), 1);
    assert!(difference.contains(&1));
}

#[test]
fn test_gset_crdt_laws() {
    let mut s1 = GrowOnlySet::new();
    s1.add("a");
    s1.add("b");

    let mut s2 = GrowOnlySet::new();
    s2.add("b");
    s2.add("c");

    let mut s3 = GrowOnlySet::new();
    s3.add("c");
    s3.add("d");

    assert!(test_idempotency(&s1));
    assert!(test_commutativity(&s1, &s2));
    assert!(test_associativity(&s1, &s2, &s3));
    assert!(verify_crdt_laws(&[s1, s2, s3]));
}

#[test]
fn test_gset_iterators() {
    let mut set = GrowOnlySet::new();
    set.add(1);
    set.add(2);
    set.add(3);

    let elements: Vec<_> = set.iter().cloned().collect();
    assert_eq!(elements, vec![1, 2, 3]);

    let mut from_iter: GrowOnlySet<i32> = GrowOnlySet::new();
    for x in vec![4, 5, 6] {
        from_iter.add(x);
    }
    assert_eq!(from_iter.len(), 3);
    assert!(from_iter.contains(&5));
}

#[test]
fn gset_elements_are_sorted_and_merge_keeps_both_sides() {
    let mut a = GrowOnlySet::new();
    a.add(9u64);
    a.add(2);
    let mut b = GrowOnlySet::new();
    b.add(5u64);
    let merged = a.duplicate().merged(&b);
    assert_eq!(merged.elements(), vec![2, 5, 9]);
    assert!(merged.is_superset(&a));
    assert!(merged.is_superset(&b));
}

#[test]
fn test_gcounter_creation() {
    let counter = GrowOnlyCounter::new();
    assert_eq!(counter.value(), 0);
    assert!(counter.is_empty());

    let replica = ReplicaId::new();
    let counter = GrowOnlyCounter::with_replica(replica);
    assert_eq!(counter.get_replica_count(&replica), 0);
}

#[test]
fn test_gcounter_increment() {
    let replica1 = ReplicaId::new();
    let replica2 = ReplicaId::new();

    let mut counter = GrowOnlyCounter::new();

    assert_eq!(counter.increment(replica1, 5), 5);
    assert_eq!(counter.increment(replica2, 3), 3);
    assert_eq!(counter.increment(replica1, 2), 7);

    assert_eq!(counter.value(), 10);
    assert_eq!(counter.get_replica_count(&replica1), 7);
    assert_eq!(counter.get_replica_count(&replica2), 3);
}

#[test]
fn test_gcounter_merge() {
    let replica1 = ReplicaId::new();
    let replica2 = ReplicaId::new();

    let mut counter1 = GrowOnlyCounter::new();
    counter1.increment(replica1, 5);
    counter1.increment(replica2, 2);

    let mut counter2 = GrowOnlyCounter::new();
    counter2.increment(replica1, 3);
    counter2.increment(replica2, 4);

    counter1.merge(&counter2);

    assert_eq!(counter1.get_replica_count(&replica1), 5);
    assert_eq!(counter1.get_replica_count(&replica2), 4);
    assert_eq!(counter1.value(), 9);
}

#[test]
fn test_gcounter_crdt_laws() {
    let replica1 = ReplicaId::new();
    let replica2 = ReplicaId::new();

    let mut c1 = GrowOnlyCounter::new();
    c1.increment(replica1, 3);

    let mut c2 = GrowOnlyCounter::new();
    c2.increment(replica2, 2);

    let mut c3 = GrowOnlyCounter::new();
    c3.increment(replica1, 1);
    c3.increment(replica2, 1);

    assert!(test_idempotency(&c1));
    assert!(test_commutativity(&c1, &c2));
    assert!(test_associativity(&c1, &c2, &c3));
    assert!(verify_crdt_laws(&[c1, c2, c3]));
}

#[test]
fn verify_crdt_laws_accepts_fewer_than_three() {
    let c1 = GrowOnlyCounter::new();
    assert!(verify_crdt_laws(&[c1]));
}

#[test]
fn test_replica_id() {
    let id1 = ReplicaId::new();
    let id2 = ReplicaId::new();

    assert_ne!(id1, id2);
    assert_eq!(id1, ReplicaId::from_uuid(id1.uuid()));
}

#[test]
fn test_logical_timestamp() {
    let replica1 = ReplicaId::new();
    let replica2 = ReplicaId::new();

    let mut ts1 = LogicalTimestamp::new(0, replica1);
    let mut ts2 = LogicalTimestamp::new(0, replica2);

    ts1.tick();
    assert_eq!(ts1.counter, 1);

    ts2.update(&ts1);
    assert_eq!(ts2.counter, 2);

    ts1.update(&ts2);
    assert_eq!(ts1.counter, 3);
}

#[test]
fn test_hybrid_timestamp() {
    let replica1 = ReplicaId::new();
    let replica2 = ReplicaId::new();
    let instant = PhysicalTimestamp::from_datetime(1_700_000_000, 0);

    let mut ts1 = HybridTimestamp::new_at(replica1, instant);
    let mut ts2 = HybridTimestamp::new_at(replica2, instant);

    // Rapid operations within the same instant of the wall clock.
    ts1.tick_at(instant);
    ts1.tick_at(instant);
    assert_eq!(ts1.logical, 2);

    ts2.update_at(&ts1, instant);
    assert!(ts2.logical > ts1.logical);
}

#[test]
fn hybrid_tick_takes_a_later_wall_clock() {
    let r = ReplicaId::from_uuid(1);
    let t0 = PhysicalTimestamp::from_datetime(100, 0);
    let t1 = PhysicalTimestamp::from_datetime(101, 5);
    let mut ts = HybridTimestamp::new_at(r, t0);
    ts.tick_at(t0);
    assert_eq!(ts.logical, 1);
    ts.tick_at(t1);
    assert_eq!(ts.physical, t1);
    assert_eq!(ts.logical, 0);
    let earlier = HybridTimestamp::new_at(ReplicaId::from_uuid(2), t0);
    assert!(earlier.less_than(&ts));
    assert!(!ts.less_than(&earlier));
}

#[test]
fn test_crdt_metadata() {
    let replica = ReplicaId::new();
    let created = PhysicalTimestamp::from_datetime(1_700_000_000, 0);
    let mut metadata = CRDTMetadata::new_at(replica, created);

    let later = PhysicalTimestamp::from_datetime(1_700_000_000, 1_000_000);
    metadata.update_after_operation_at(replica, 100, later);

    assert!(metadata.created_at.before(&metadata.modified_at));
    assert_eq!(metadata.size_bytes, 100);
    assert_eq!(metadata.operation_count, 1);
}

#[test]
fn crdt_metadata_merge_takes_later_modification() {
    let r1 = ReplicaId::from_uuid(1);
    let r2 = ReplicaId::from_uuid(2);
    let mut m1 = CRDTMetadata::new_at(r1, PhysicalTimestamp::from_datetime(10, 0));
    let mut m2 = CRDTMetadata::new_at(r2, PhysicalTimestamp::from_datetime(20, 0));
    m2.update_after_operation_at(r2, 8, PhysicalTimestamp::from_datetime(30, 0));
    m2.update_after_operation_at(r2, 8, PhysicalTimestamp::from_datetime(31, 0));
    m1.merge(&m2);
    assert_eq!(m1.modified_by, r2);
    assert_eq!(m1.modified_at, PhysicalTimestamp::from_datetime(31, 0));
    assert_eq!(m1.operation_count, 2);
    assert_eq!(m1.version.get(&r2), 2);
}

#[test]
fn crdt_container_hashes_the_encoding() {
    let r = ReplicaId::from_uuid(7);
    let encoded = b"encoded state".to_vec();
    let container = CRDTContainer::new(GrowOnlyCounter::new(), r, &encoded);
    assert_eq!(container.metadata.content_hash, Some(*blake3::hash(&encoded).as_bytes()));
    assert_eq!(container.metadata.size_bytes, encoded.len());
}

#[test]
fn test_crdt_statistics() {
    let mut stats = CRDTStatistics::default();

    stats.record_merge(10);
    stats.record_merge(20);
    stats.record_sync(15);

    assert_eq!(stats.merge_operations, 2);
    assert_eq!(stats.merge_time_ms, 30);
    assert_eq!(stats.merge_time_ms as f64 / stats.merge_operations as f64, 15.0);
    assert_eq!(stats.sync_events, 1);
    assert_eq!(stats.sync_time_ms, 15);
}

#[test]
fn test_pncounter_creation() {
    let counter = PNCounter::new();
    assert_eq!(counter.value(), 0);
    assert!(counter.is_empty());

    let replica = ReplicaId::new();
    let counter = PNCounter::with_replica(replica);
    assert_eq!(counter.get_replica_increments(&replica), 0);
    assert_eq!(counter.get_replica_decrements(&replica), 0);
}

#[test]
fn test_pncounter_operations() {
    let replica1 = ReplicaId::new();
    let replica2 = ReplicaId::new();

    let mut counter = PNCounter::new();

    assert_eq!(counter.increment(replica1, 5), 5);
    assert_eq!(counter.increment(replica2, 3), 8);
    assert_eq!(counter.decrement(replica1, 2), 6);
    assert_eq!(counter.decrement(replica2, 4), 2);

    assert_eq!(counter.value(), 2);
    assert_eq!(counter.get_replica_value(&replica1), 3);
    assert_eq!(counter.get_replica_value(&replica2), -1);
    assert_eq!(counter.operation_count(), 14);
}

#[test]
fn test_pncounter_merge() {
    let replica1 = ReplicaId::new();
    let replica2 = ReplicaId::new();

    let mut counter1 = PNCounter::new();
    counter1.increment(replica1, 5);
    counter1.decrement(replica2, 2);

    let mut counter2 = PNCounter::new();
    counter2.increment(replica1, 3);
    counter2.decrement(replica2, 4);

    counter1.merge(&counter2);

    assert_eq!(counter1.get_replica_increments(&replica1), 5);
    assert_eq!(counter1.get_replica_decrements(&replica2), 4);
    assert_eq!(counter1.value(), 1);
}

#[test]
fn test_pncounter_operations_enum() {
    let replica = ReplicaId::new();
    let mut counter = PNCounter::new();

    let inc_op = PNCounterOp::Increment { replica_id: replica, amount: 10 };
    let dec_op = PNCounterOp::Decrement { replica_id: replica, amount: 3 };

    assert_eq!(inc_op.apply(&mut counter), 10);
    assert_eq!(dec_op.apply(&mut counter), 7);

    assert_eq!(inc_op.replica_id(), replica);
    assert_eq!(inc_op.amount(), 10);
    assert_eq!(dec_op.amount(), 3);
}

#[test]
fn test_pncounter_crdt_laws() {
    let replica1 = ReplicaId::new();
    let replica2 = ReplicaId::new();

    let mut c1 = PNCounter::new();
    c1.increment(replica1, 5);
    c1.decrement(replica1, 2);

    let mut c2 = PNCounter::new();
    c2.increment(replica2, 3);
    c2.decrement(replica2, 1);

    let mut c3 = PNCounter::new();
    c3.increment(replica1, 1);
    c3.increment(replica2, 2);

    assert!(test_idempotency(&c1));
    assert!(test_commutativity(&c1, &c2));
    assert!(test_associativity(&c1, &c2, &c3));
    assert!(verify_crdt_laws(&[c1, c2, c3]));
}

#[test]
fn test_pncounter_negative_values() {
    let replica = ReplicaId::new();
    let mut counter = PNCounter::new();

    counter.decrement(replica, 10);
    assert_eq!(counter.value(), -10);

    counter.increment(replica, 3);
    assert_eq!(counter.value(), -7);

    counter.increment(replica, 15);
    assert_eq!(counter.value(), 8);
}

#[test]
fn pncounter_replicas_lists_both_counters() {
    let r1 = ReplicaId::from_uuid(1);
    let r2 = ReplicaId::from_uuid(2);
    let mut c = PNCounter::new();
    c.increment(r2, 1);
    c.decrement(r1, 1);
    c.decrement(r2, 1);
    assert_eq!(c.replicas(), vec![r2, r1, r2]);
    assert_eq!(c.replica_count(), 2);
}

#[test]
fn test_vector_clock_creation() {
    let vc = VectorClock::new();
    assert!(vc.is_empty());
    assert_eq!(vc.replica_count(), 0);

    let replica = ReplicaId::new();
    let vc = VectorClock::with_replica(replica);
    assert!(!vc.is_empty());
    assert_eq!(vc.replica_count(), 1);
    assert_eq!(vc.get(&replica), 0);
}

#[test]
fn test_vector_clock_operations() {
    let replica1 = ReplicaId::new();
    let replica2 = ReplicaId::new();

    let mut vc = VectorClock::new();

    assert_eq!(vc.increment(replica1), 1);
    assert_eq!(vc.increment(replica1), 2);
    assert_eq!(vc.increment(replica2), 1);

    assert_eq!(vc.get(&replica1), 2);
    assert_eq!(vc.get(&replica2), 1);

    vc.set(replica1, 5);
    assert_eq!(vc.get(&replica1), 5);
}

#[test]
fn test_happens_before() {
    let replica1 = ReplicaId::new();
    let replica2 = ReplicaId::new();

    let mut vc1 = VectorClock::new();
    vc1.increment(replica1);

    let mut vc2 = VectorClock::new();
    vc2.increment(replica1);
    vc2.increment(replica2);

    assert!(vc1.happens_before(&vc2));
    assert!(!vc2.happens_before(&vc1));
    assert!(!vc1.concurrent_with(&vc2));
}

#[test]
fn test_concurrent() {
    let replica1 = ReplicaId::new();
    let replica2 = ReplicaId::new();

    let mut vc1 = VectorClock::new();
    vc1.increment(replica1);

    let mut vc2 = VectorClock::new();
    vc2.increment(replica2);

    assert!(vc1.concurrent_with(&vc2));
    assert!(vc2.concurrent_with(&vc1));
    assert!(!vc1.happens_before(&vc2));
    assert!(!vc2.happens_before(&vc1));
}

#[test]
fn test_vector_clock_merge() {
    let replica1 = ReplicaId::new();
    let replica2 = ReplicaId::new();
    let replica3 = ReplicaId::new();

    let mut vc1 = VectorClock::new();
    vc1.set(replica1, 3);
    vc1.set(replica2, 1);

    let mut vc2 = VectorClock::new();
    vc2.set(replica1, 2);
    vc2.set(replica2, 4);
    vc2.set(replica3, 1);

    vc1.update(&vc2);

    assert_eq!(vc1.get(&replica1), 3);
    assert_eq!(vc1.get(&replica2), 4);
    assert_eq!(vc1.get(&replica3), 1);
}

#[test]
fn test_versioned_value() {
    let replica1 = ReplicaId::new();
    let replica2 = ReplicaId::new();

    let value1 = VersionedValue::new("hello", replica1);
    assert_eq!(value1.value, "hello");
    assert_eq!(value1.author, replica1);
    assert_eq!(value1.version.get(&replica1), 1);

    let mut vc2 = VectorClock::new();
    vc2.increment(replica1);
    vc2.increment(replica2);
    let value2 = VersionedValue::with_version("world", vc2, replica2);

    assert!(value1.happens_before(&value2));
    assert!(!value2.happens_before(&value1));
}

#[test]
fn test_mv_register() {
    let replica1 = ReplicaId::new();
    let replica2 = ReplicaId::new();

    let mut register = MVRegister::new();

    register.set("hello", replica1, VectorClock::new());
    assert_eq!(register.values().len(), 1);
    assert_eq!(register.value(), Some(&"hello"));
    assert!(!register.has_conflicts());

    register.set("world", replica2, VectorClock::new());
    assert_eq!(register.values().len(), 2);
    assert!(register.has_conflicts());

    let later_vc = register.vector_clock();
    register.set("final", replica1, later_vc);
    assert_eq!(register.values().len(), 1);
    assert_eq!(register.value(), Some(&"final"));
    assert!(!register.has_conflicts());
}

#[test]
fn test_crdt_laws_vector_clock() {
    let replica1 = ReplicaId::new();
    let replica2 = ReplicaId::new();

    let mut vc1 = VectorClock::new();
    vc1.increment(replica1);

    let mut vc2 = VectorClock::new();
    vc2.increment(replica2);

    let mut vc3 = VectorClock::new();
    vc3.increment(replica1);
    vc3.increment(replica2);

    assert!(test_idempotency(&vc1));
    assert!(test_commutativity(&vc1, &vc2));
    assert!(test_associativity(&vc1, &vc2, &vc3));

    assert!(verify_crdt_laws(&[vc1, vc2, vc3]));
}

#[test]
fn two_phase_set_removal_is_final() {
    let mut s = TwoPhaseSet::new();
    assert!(s.add(1u32));
    assert!(s.contains(&1));
    assert!(s.remove(1));
    assert!(!s.contains(&1));
    assert!(!s.add(1));
    assert!(!s.contains(&1));
    assert!(!s.remove(2));
}

#[test]
fn lww_register_keeps_the_later_write() {
    let r1 = ReplicaId::from_uuid(1);
    let r2 = ReplicaId::from_uuid(2);
    let mut a: LWWRegister<u32> = LWWRegister::new_at(r1, PhysicalTimestamp::from_datetime(1, 0));
    a.set_at(10, r1, PhysicalTimestamp::from_datetime(5, 0));
    let mut b: LWWRegister<u32> = LWWRegister::new_at(r2, PhysicalTimestamp::from_datetime(1, 0));
    b.set_at(20, r2, PhysicalTimestamp::from_datetime(6, 0));
    let mut ab = a.duplicate();
    ab.merge(&b);
    assert_eq!(ab.get(), Some(&20));
    let mut ba = b.duplicate();
    ba.merge(&a);
    assert_eq!(ba.get(), Some(&20));
    assert!(ab.same_state(&ba));
}

#[test]
fn or_set_add_then_merge() {
    let r1 = ReplicaId::from_uuid(1);
    let r2 = ReplicaId::from_uuid(2);
    let mut a = ORSet::new();
    a.add("x", r1);
    let mut b = ORSet::new();
    b.add("y", r2);
    assert!(a.contains(&"x"));
    assert!(!a.contains(&"y"));
    a.merge(&b);
    assert!(a.contains(&"x"));
    assert!(a.contains(&"y"));
    assert!(test_idempotency(&a));
    assert!(test_commutativity(&a, &b));
}

#[test]
fn rga_orders_by_timestamp_and_merges() {
    let r1 = ReplicaId::from_uuid(1);
    let r2 = ReplicaId::from_uuid(2);
    let mut a = RGA::new();
    a.insert_at('b', r1, PhysicalTimestamp::from_datetime(2, 0));
    a.insert_at('a', r1, PhysicalTimestamp::from_datetime(1, 0));
    let mut b = RGA::new();
    b.insert_at('c', r2, PhysicalTimestamp::from_datetime(3, 0));
    a.merge(&b);
    assert_eq!(a.values(), vec!['a', 'b', 'c']);
    assert!(test_idempotency(&a));
}

#[test]
fn sync_manager_requests_state_of_concurrent_peer() {
    let me = ReplicaId::from_uuid(1);
    let peer = ReplicaId::from_uuid(2);
    let mut manager = SyncManager::new(me, GrowOnlyCounter::new(), SyncConfig::default());
    let mut remote_clock = VectorClock::new();
    remote_clock.increment(peer);
    let out = manager.handle_state_summary(peer, remote_clock, [1u8; 32], &[2u8; 32]);
    assert_eq!(out.len(), 1);
    assert_eq!(out[0].0, peer);
    match &out[0].1 {
        SyncMessage::StateRequest { replica_id, requested_vector_clock } => {
            assert_eq!(*replica_id, me);
            assert_eq!(requested_vector_clock.as_ref().map(|c| c.get(&peer)), Some(1));
        }
        _ => panic!("expected a state request"),
    }
    // Same content: nothing to ask.
    let mut clock = VectorClock::new();
    clock.increment(peer);
    let out = manager.handle_state_summary(peer, clock, [2u8; 32], &[2u8; 32]);
    assert!(out.is_empty());
    assert_eq!(manager.sync_statistics().peer_count, 1);
}

#[test]
fn sync_manager_full_state_merges_and_acknowledges() {
    let me = ReplicaId::from_uuid(1);
    let peer = ReplicaId::from_uuid(2);
    let mut manager = SyncManager::new(me, GrowOnlyCounter::new(), SyncConfig::default());
    let mut remote = GrowOnlyCounter::new();
    remote.increment(peer, 4);
    let mut clock = VectorClock::new();
    clock.set(peer, 3);
    let (to, ack) = manager.handle_full_state(peer, remote, clock, [0u8; 32]);
    assert_eq!(to, peer);
    assert_eq!(manager.local_state().value(), 4);
    match ack {
        SyncMessage::Acknowledgment { replica_id, ack_vector_clock } => {
            assert_eq!(replica_id, me);
            assert_eq!(ack_vector_clock.get(&me), 2);
            assert_eq!(ack_vector_clock.get(&peer), 3);
        }
        _ => panic!("expected an acknowledgment"),
    }
}

#[test]
fn sync_config_defaults() {
    let c = SyncConfig::default();
    assert_eq!(c.anti_entropy_interval_ms, 30000);
    assert_eq!(c.max_message_size_bytes, 1024 * 1024);
    assert_eq!(c.max_retries, 3);
    assert_eq!(c.sync_timeout_ms, 10000);
    assert!(c.enable_delta_compression);
}

#[test]
fn vector_clock_text_lists_entries_in_id_order() {
    let a = ReplicaId::from_uuid(2);
    let b = ReplicaId::from_uuid(1);
    let mut vc = VectorClock::new();
    assert_eq!(vc.to_string(), "VC{}");
    vc.set(a, 7);
    vc.set(b, 12);
    assert_eq!(
        vc.to_string(),
        "VC{00000000-0000-0000-0000-000000000001:12, 00000000-0000-0000-0000-000000000002:7}"
    );
}

#[test]
fn replica_id_text_is_hyphenated_uuid() {
    let id = ReplicaId::from_uuid(0x1234_5678_9abc_def0_1122_3344_5566_7788);
    assert_eq!(id.to_string(), "12345678-9abc-def0-1122-334455667788");
}

#[test]
fn vector_clock_partial_order() {
    let r1 = ReplicaId::from_uuid(1);
    let r2 = ReplicaId::from_uuid(2);
    let mut a = VectorClock::new();
    a.set(r1, 1);
    let mut b = VectorClock::new();
    b.set(r1, 2);
    assert_eq!(a.partial_cmp(&b), Some(Ordering::Less));
    assert_eq!(b.partial_cmp(&a), Some(Ordering::Greater));
    assert_eq!(a.partial_cmp(&a.duplicate_clock()), Some(Ordering::Equal));
    let mut c = VectorClock::new();
    c.set(r2, 1);
    assert_eq!(a.partial_cmp(&c), None);
    assert!(a < b);
}

#[test]
fn mv_register_merged_clock_is_join_of_clocks() {
    let a = ReplicaId::from_uuid(10);
    let b = ReplicaId::from_uuid(20);
    let mut r1: MVRegister<u32> = MVRegister::new();
    r1.set(1, a, VectorClock::new());
    let mut r2: MVRegister<u32> = MVRegister::new();
    r2.set(2, b, VectorClock::new());
    r2.set(3, b, r2.vector_clock());
    let c1 = r1.vector_clock();
    let c2 = r2.vector_clock();
    r1.merge(&r2);
    let merged = r1.vector_clock();
    assert_eq!(merged.get(&a), c1.get(&a).max(c2.get(&a)));
    assert_eq!(merged.get(&b), c1.get(&b).max(c2.get(&b)));
    assert_eq!(merged.get(&a), 1);
    assert_eq!(merged.get(&b), 2);
}

#[test]
fn counter_texts() {
    let r = ReplicaId::from_uuid(5);
    let mut g = GrowOnlyCounter::new();
    assert_eq!(g.to_string(), "GCounter(0)");
    g.increment(r, 42);
    assert_eq!(g.to_string(), "GCounter(42)");
    let mut p = PNCounter::new();
    p.increment(r, 3);
    p.decrement(r, 10);
    assert_eq!(p.to_string(), "PNCounter(-7)");
    p.increment(r, 20);
    assert_eq!(p.to_string(), "PNCounter(13)");
}

#[test]
fn two_phase_set_after_a_run_of_operations() {
    let mut s = TwoPhaseSet::new();
    assert!(!s.remove(4));
    assert!(s.add(4));
    assert!(s.contains(&4));
    assert!(s.remove(4));
    assert!(!s.add(4));
    assert!(!s.contains(&4));
    assert!(s.add(5));
    assert!(!s.add(5));
    assert!(s.contains(&5));
}

#[test]
fn gset_len_grows_by_new_elements() {
    let mut s = GrowOnlySet::new();
    assert!(s.add(1u32));
    assert_eq!(s.len(), 1);
    assert!(!s.add(1));
    assert_eq!(s.len(), 1);
    assert!(s.add(2));
    assert_eq!(s.len(), 2);
}

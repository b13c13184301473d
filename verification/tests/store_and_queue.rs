use sensor_bridge::actions::{ActionRequest, ConnectionState, GameAction, RequestKind};
use sensor_bridge::queue::BoundedQueue;
use sensor_bridge::store::ConnectionStore;

#[test]
fn pushing_fifty_one_into_a_fifty_queue_evicts_the_first() {
    let mut q: BoundedQueue<u64> = BoundedQueue::new(50);
    for i in 1..=51u64 {
        q.push(i);
    }
    assert_eq!(q.len(), 50);
    let drained = q.drain();
    assert_eq!(drained.len(), 50);
    assert_eq!(drained[0], 2);
    assert_eq!(drained[49], 51);
}

#[test]
fn queue_drain_empties_and_keeps_insertion_order() {
    let mut q: BoundedQueue<u64> = BoundedQueue::new(3);
    q.push(10);
    q.push(20);
    assert_eq!(q.drain(), vec![10, 20]);
    assert_eq!(q.len(), 0);
    assert!(q.drain().is_empty());
}

#[test]
fn close_handling_is_idempotent() {
    let mut store = ConnectionStore::new();
    store.upsert_default("c1");
    assert!(store.get("c1").is_some());
    store.remove("c1");
    assert!(store.get("c1").is_none());
    store.remove("c1");
    assert!(store.get("c1").is_none());
}

#[test]
fn upsert_default_keeps_an_existing_state() {
    let mut store = ConnectionStore::new();
    let honored = store.apply(
        "c1",
        ActionRequest { kind: RequestKind::PeakLeft, pressure: 700 },
        500,
    );
    assert!(honored.is_some());
    store.upsert_default("c1");
    assert_eq!(store.get("c1").unwrap().movement_pressure, 700);
}

#[test]
fn apply_returns_the_post_mutation_snapshot() {
    let mut store = ConnectionStore::new();
    let (snapshot, action, send_discrete) = store
        .apply(
            "c1",
            ActionRequest { kind: RequestKind::PeakShoot, pressure: 800 },
            500,
        )
        .unwrap();
    assert!(snapshot.is_shooting);
    assert_eq!(snapshot.shoot_pressure, 800);
    assert_eq!(action, GameAction::Shoot);
    assert!(send_discrete);
    assert_eq!(store.get("c1").unwrap(), snapshot);
}

#[test]
fn apply_stopshooting_sends_no_discrete_event() {
    let mut store = ConnectionStore::new();
    let _ = store.apply(
        "c1",
        ActionRequest { kind: RequestKind::PeakShoot, pressure: 800 },
        500,
    );
    let (snapshot, action, send_discrete) = store
        .apply(
            "c1",
            ActionRequest { kind: RequestKind::StopShooting, pressure: 0 },
            500,
        )
        .unwrap();
    assert!(!snapshot.is_shooting);
    assert_eq!(action, GameAction::Idle);
    assert!(!send_discrete);
}

#[test]
fn apply_gated_request_leaves_the_entry_untouched() {
    let mut store = ConnectionStore::new();
    let r = store.apply(
        "c1",
        ActionRequest { kind: RequestKind::PeakRight, pressure: 500 },
        500,
    );
    assert!(r.is_none());
    let expected = ConnectionState {
        current_movement: None,
        is_shooting: false,
        movement_pressure: 0,
        shoot_pressure: 0,
    };
    assert_eq!(store.get("c1").unwrap(), expected);
}

use quant_engine::clock::UtcStamp;
use quant_engine::state_machine::{OrderRecord, OrderStateMachine, OrderStatus};
use uuid::Uuid;

fn new_order(id: u128) -> OrderRecord {
    let utc = chrono::Utc::now();
    let now = UtcStamp { secs: utc.timestamp(), nanos: utc.timestamp_subsec_nanos() };
    OrderRecord {
        order_id: id,
        signal_id: Uuid::new_v4().as_u128(),
        symbol: "NIFTY".into(),
        exchange: "NSE".into(),
        side: "BUY".into(),
        requested_qty: 5,
        status: OrderStatus::Submitted,
        created_at: now,
        updated_at: now,
    }
}

fn price(p: f64) -> u64 {
    p.to_bits()
}

#[test]
fn happy_path_submit_acknowledge_fill() {
    let mut sm = OrderStateMachine::new();
    let id = Uuid::new_v4().as_u128();
    sm.submit(new_order(id));

    sm.acknowledge(id, "BRK-001".into()).unwrap();
    assert!(matches!(sm.get(&id).unwrap().status, OrderStatus::Acknowledged { .. }));

    sm.fill(id, 5, price(18000.0), "BRK-001".into()).unwrap();
    assert!(matches!(sm.get(&id).unwrap().status, OrderStatus::Filled { .. }));

    assert_eq!(sm.active_orders().len(), 0);
    assert_eq!(sm.completed_orders().len(), 1);
}

#[test]
fn partial_fill_then_full_fill() {
    let mut sm = OrderStateMachine::new();
    let id = Uuid::new_v4().as_u128();
    sm.submit(new_order(id));

    sm.partial_fill(id, 2, price(18000.0), "BRK-002".into()).unwrap();
    assert!(matches!(sm.get(&id).unwrap().status, OrderStatus::PartiallyFilled { .. }));

    sm.fill(id, 5, price(18001.0), "BRK-002".into()).unwrap();
    assert!(matches!(sm.get(&id).unwrap().status, OrderStatus::Filled { .. }));
}

#[test]
fn cancel_from_submitted() {
    let mut sm = OrderStateMachine::new();
    let id = Uuid::new_v4().as_u128();
    sm.submit(new_order(id));
    sm.cancel(id, "user cancelled".into()).unwrap();
    assert!(matches!(sm.get(&id).unwrap().status, OrderStatus::Cancelled { .. }));
}

#[test]
fn reject_from_new() {
    let mut sm = OrderStateMachine::new();
    let id = Uuid::new_v4().as_u128();
    let mut rec = new_order(id);
    rec.status = OrderStatus::New;
    sm.submit(rec);
    sm.reject(id, "insufficient margin".into()).unwrap();
    assert!(matches!(sm.get(&id).unwrap().status, OrderStatus::Rejected { .. }));
}

#[test]
fn invalid_acknowledge_from_new_returns_err() {
    let mut sm = OrderStateMachine::new();
    let id = Uuid::new_v4().as_u128();
    let mut rec = new_order(id);
    rec.status = OrderStatus::New;
    sm.submit(rec);
    let err = sm.acknowledge(id, "BRK".into()).unwrap_err();
    assert!(err.contains("Cannot transition"), "err = {err}");
}

#[test]
fn invalid_fill_from_filled_returns_err() {
    let mut sm = OrderStateMachine::new();
    let id = Uuid::new_v4().as_u128();
    sm.submit(new_order(id));
    sm.fill(id, 5, price(18000.0), "BRK".into()).unwrap();
    let err = sm.fill(id, 5, price(18001.0), "BRK".into()).unwrap_err();
    assert!(err.contains("Cannot transition"), "err = {err}");
}

#[test]
fn cancel_from_filled_returns_err() {
    let mut sm = OrderStateMachine::new();
    let id = Uuid::new_v4().as_u128();
    sm.submit(new_order(id));
    sm.fill(id, 5, price(18000.0), "BRK".into()).unwrap();
    let err = sm.cancel(id, "oops".into()).unwrap_err();
    assert!(err.contains("Cannot transition"), "err = {err}");
}

#[test]
fn reject_from_acknowledged_returns_err() {
    let mut sm = OrderStateMachine::new();
    let id = Uuid::new_v4().as_u128();
    sm.submit(new_order(id));
    sm.acknowledge(id, "BRK".into()).unwrap();
    let err = sm.reject(id, "bad".into()).unwrap_err();
    assert!(err.contains("Cannot transition"), "err = {err}");
}

#[test]
fn len_tracks_orders() {
    let mut sm = OrderStateMachine::new();
    assert_eq!(sm.len(), 0);
    for _ in 0..3 {
        sm.submit(new_order(Uuid::new_v4().as_u128()));
    }
    assert_eq!(sm.len(), 3);
}

// ── Further cases ─────────────────────────────────────────────────────────────

#[test]
fn unknown_order_error_names_the_uuid() {
    let mut sm = OrderStateMachine::new();
    let id = 0xa1a2a3a4b1b2c1c2d1d2d3d4d5d6d7d8u128;
    let err = sm.cancel(id, "nope".into()).unwrap_err();
    assert_eq!(err, "Order a1a2a3a4-b1b2-c1c2-d1d2-d3d4d5d6d7d8 not found");
    assert!(sm.is_empty());
}

#[test]
fn transition_error_names_both_states() {
    let mut sm = OrderStateMachine::new();
    let id = 42u128;
    sm.submit(new_order(id));
    sm.acknowledge(id, "BRK-9".into()).unwrap();
    let err = sm.reject(id, "late".into()).unwrap_err();
    let from = format!("{:?}", OrderStatus::Acknowledged { broker_order_id: "BRK-9".into() });
    assert_eq!(err, format!("Cannot transition from {from} to Rejected"));
}

#[test]
fn failed_transition_leaves_record_unchanged() {
    let mut sm = OrderStateMachine::new();
    let id = 5u128;
    let rec = new_order(id);
    let stamp = rec.updated_at;
    sm.submit(rec);
    sm.fill(id, 5, price(100.5), "B".into()).unwrap();
    let filled = sm.get(&id).unwrap().clone();
    assert!(sm.cancel(id, "too late".into()).is_err());
    assert!(sm.partial_fill(id, 1, price(1.0), "B".into()).is_err());
    assert!(sm.acknowledge(id, "B".into()).is_err());
    assert!(sm.reject(id, "x".into()).is_err());
    let after = sm.get(&id).unwrap();
    assert_eq!(after.status, filled.status);
    assert_eq!(after.updated_at, filled.updated_at);
    assert!((after.updated_at.secs, after.updated_at.nanos) >= (stamp.secs, stamp.nanos));
}

#[test]
fn successful_transition_keeps_identity_and_sets_status() {
    let mut sm = OrderStateMachine::new();
    let id = 77u128;
    let rec = new_order(id);
    let (signal, created) = (rec.signal_id, rec.created_at);
    sm.submit(rec);
    sm.partial_fill(id, 2, price(18000.25), "BRK-3".into()).unwrap();
    let r = sm.get(&id).unwrap();
    assert_eq!(r.order_id, id);
    assert_eq!(r.signal_id, signal);
    assert_eq!(r.created_at, created);
    assert_eq!(r.symbol, "NIFTY");
    assert_eq!(r.requested_qty, 5);
    assert_eq!(
        r.status,
        OrderStatus::PartiallyFilled {
            filled_qty: 2,
            avg_price_bits: price(18000.25),
            broker_order_id: "BRK-3".into()
        }
    );
    // a second partial fill is allowed and replaces the first
    sm.partial_fill(id, 3, price(18000.5), "BRK-3".into()).unwrap();
    assert!(matches!(sm.get(&id).unwrap().status, OrderStatus::PartiallyFilled { filled_qty: 3, .. }));
}

#[test]
fn cancel_allowed_from_every_live_state() {
    for steps in 0..4 {
        let mut sm = OrderStateMachine::new();
        let mut rec = new_order(1);
        if steps == 0 {
            rec.status = OrderStatus::New;
        }
        sm.submit(rec);
        if steps >= 2 {
            sm.acknowledge(1, "B".into()).unwrap();
        }
        if steps >= 3 {
            sm.partial_fill(1, 1, price(1.0), "B".into()).unwrap();
        }
        assert!(sm.cancel(1, "stop".into()).is_ok());
        assert!(matches!(sm.get(&1).unwrap().status, OrderStatus::Cancelled { .. }));
    }
}

#[test]
fn active_and_completed_partition_the_book() {
    let mut sm = OrderStateMachine::default();
    for id in 0..6u128 {
        sm.submit(new_order(id));
    }
    sm.fill(0, 5, price(1.0), "B".into()).unwrap();
    sm.cancel(1, "c".into()).unwrap();
    sm.reject(2, "r".into()).unwrap();
    sm.acknowledge(3, "B".into()).unwrap();
    let active = sm.active_orders();
    let done = sm.completed_orders();
    assert_eq!(active.len(), 3);
    assert_eq!(done.len(), 3);
    assert_eq!(active.len() + done.len(), sm.len());
    let mut active_ids: Vec<u128> = active.iter().map(|r| r.order_id).collect();
    active_ids.sort();
    assert_eq!(active_ids, vec![3, 4, 5]);
    let mut done_ids: Vec<u128> = done.iter().map(|r| r.order_id).collect();
    done_ids.sort();
    assert_eq!(done_ids, vec![0, 1, 2]);
}

#[test]
fn resubmitting_same_record_is_idempotent() {
    let mut sm = OrderStateMachine::new();
    let rec = new_order(9);
    sm.submit(rec.clone());
    sm.submit(rec);
    assert_eq!(sm.len(), 1);
    assert!(matches!(sm.get(&9).unwrap().status, OrderStatus::Submitted));
    assert!(sm.get(&10).is_none());
}

use quant_engine::events::Side;
use quant_engine::executor::{Admission, ExecutionDesk, SignalTicket};
use quant_engine::state_machine::OrderStatus;

fn ticket(action: Side) -> SignalTicket {
    SignalTicket { signal_id: 11, symbol: "NIFTY".into(), exchange: "NSE".into(), action }
}

#[test]
fn zero_lots_are_skipped() {
    let mut desk = ExecutionDesk::new(9);
    assert_eq!(desk.process_signal(0, Ok(()), ticket(Side::Buy)), Admission::NoLots);
    assert!(desk.orders.is_empty());
}

#[test]
fn risk_refusal_is_passed_on() {
    let mut desk = ExecutionDesk::new(9);
    let adm = desk.process_signal(3, Err("Daily loss limit hit: -60000".into()), ticket(Side::Buy));
    assert_eq!(adm, Admission::RiskRejected("Daily loss limit hit: -60000".into()));
    assert!(desk.orders.is_empty());
}

#[test]
fn accepted_signal_becomes_submitted_order() {
    let mut desk = ExecutionDesk::new(9);
    let adm = desk.process_signal(4, Ok(()), ticket(Side::Sell));
    let order_id = match adm {
        Admission::Submitted { order_id } => order_id,
        other => panic!("expected submission, got {other:?}"),
    };
    let rec = desk.orders.get(&order_id).unwrap();
    assert_eq!(rec.signal_id, 11);
    assert_eq!(rec.side, "SELL");
    assert_eq!(rec.requested_qty, 4);
    assert_eq!(rec.symbol, "NIFTY");
    assert_eq!(rec.exchange, "NSE");
    assert_eq!(rec.status, OrderStatus::Submitted);
    assert_eq!(desk.orders.len(), 1);
    let now = chrono::Utc::now().timestamp();
    assert!((rec.created_at.secs - now).abs() <= 5);
    assert!(rec.created_at.nanos < 2_000_000_000);
    assert_eq!(uuid::Uuid::from_u128(order_id).get_version_num(), 4);
    assert_eq!(uuid::Uuid::from_u128(order_id).get_variant(), uuid::Variant::RFC4122);
}

#[test]
fn throttle_caps_submissions() {
    let mut desk = ExecutionDesk::new(2);
    let mut submitted = 0;
    let mut throttled = 0;
    for _ in 0..5 {
        match desk.process_signal(1, Ok(()), ticket(Side::Buy)) {
            Admission::Submitted { .. } => submitted += 1,
            Admission::Throttled => throttled += 1,
            other => panic!("unexpected {other:?}"),
        }
    }
    assert_eq!(submitted, 2);
    assert_eq!(throttled, 3);
    assert_eq!(desk.orders.len(), 2);
    assert_eq!(desk.orders.active_orders().len(), 2);
}

//! The executor's admission decision: what happens to a sized,
//! risk-checked trading signal.
use vstd::prelude::*;
use vstd::string::StringExecFns;

use crate::clock::utc_now;
use crate::events::{side_label, Side};
use crate::ids::{fresh_id, is_random_uuid};
use crate::state_machine::{OrderRecord, OrderStateMachine, OrderStatus};
use crate::throttle::{acquire_granted, acquire_state, OpsThrottle};

verus! {

/// The parts of a scored signal that an order carries.
pub struct SignalTicket {
    pub signal_id: u128,
    pub symbol: String,
    pub exchange: String,
    pub action: Side,
}

/// What the executor did with a signal.
#[derive(Debug, Clone, PartialEq)]
pub enum Admission {
    /// Kelly sizing yielded no lots: skipped.
    NoLots,
    /// The risk check refused the trade, for the given reason: skipped.
    RiskRejected(String),
    /// The orders-per-second limit is reached: skipped.
    Throttled,
    /// A new order was recorded as Submitted under `order_id`; its intent is
    /// to be published.
    Submitted { order_id: u128 },
}

/// Whether `rec` is the record of a freshly submitted order `order_id` of
/// `lots` lots for `ticket`, stamped at some time.
pub open spec fn is_submission(rec: OrderRecord, ticket: SignalTicket, order_id: u128, lots: u32) -> bool {
    &&& rec.order_id == order_id
    &&& rec.signal_id == ticket.signal_id
    &&& rec.symbol@ == ticket.symbol@
    &&& rec.exchange@ == ticket.exchange@
    &&& rec.side@ == side_label(ticket.action)
    &&& rec.requested_qty == lots
    &&& rec.status is Submitted
}

/// The order book of the executor: the throttle that paces submissions and
/// the state machine that tracks them.
pub struct ExecutionDesk {
    pub throttle: OpsThrottle,
    pub orders: OrderStateMachine,
}

impl ExecutionDesk {
    /// A desk that submits at most `max_ops` orders per second and tracks none.
    pub fn new(max_ops: u32) -> (desk: Self)
        ensures
            desk.throttle.limit() == max_ops,
            desk.throttle.stamps() == Seq::<u128>::empty(),
            desk.orders@ == Map::<u128, OrderRecord>::empty(),
    {
        ExecutionDesk { throttle: OpsThrottle::new(max_ops), orders: OrderStateMachine::new() }
    }

    /// Processes a signal sized at `lots` lots whose risk check gave `risk`:
    /// a signal with no lots is skipped; then one the risk check refused;
    /// then one the throttle refuses. Otherwise a fresh random UUID is drawn as
    /// the order id and the order is recorded as Submitted.
    pub fn process_signal(&mut self, lots: u32, risk: Result<(), String>, ticket: SignalTicket) -> (adm:
        Admission)
        ensures
            final(self).throttle.limit() == old(self).throttle.limit(),
            lots == 0 ==> adm == Admission::NoLots && final(self).throttle.stamps() == old(
                self,
            ).throttle.stamps() && final(self).orders@ == old(self).orders@,
            lots > 0 && risk is Err ==> adm == Admission::RiskRejected(risk->Err_0)
                && final(self).throttle.stamps() == old(self).throttle.stamps()
                && final(self).orders@ == old(self).orders@,
            lots > 0 && risk is Ok ==> exists|now: u128|
                #![trigger acquire_state(old(self).throttle.limit(), old(self).throttle.stamps(), now)]
                {
                    let granted = acquire_granted(
                        old(self).throttle.limit(),
                        old(self).throttle.stamps(),
                        now,
                    );
                    &&& final(self).throttle.stamps() == acquire_state(
                        old(self).throttle.limit(),
                        old(self).throttle.stamps(),
                        now,
                    )
                    &&& !granted ==> adm == Admission::Throttled && final(self).orders@ == old(
                        self,
                    ).orders@
                    &&& granted ==> (adm matches Admission::Submitted { order_id } && {
                        &&& is_random_uuid(order_id)
                        &&& final(self).orders@.contains_key(order_id)
                        &&& final(self).orders@ == old(self).orders@.insert(
                            order_id,
                            final(self).orders@[order_id],
                        )
                        &&& is_submission(final(self).orders@[order_id], ticket, order_id, lots)
                    })
                },
    {
        if lots == 0 {
            return Admission::NoLots;
        }
        if let Err(reason) = risk {
            return Admission::RiskRejected(reason);
        }
        if !self.throttle.try_acquire() {
            return Admission::Throttled;
        }
        let order_id = fresh_id();
        let record = OrderRecord {
            order_id,
            signal_id: ticket.signal_id,
            symbol: ticket.symbol,
            exchange: ticket.exchange,
            side: String::from_str(ticket.action.as_str()),
            requested_qty: lots,
            status: OrderStatus::Submitted,
            created_at: utc_now(),
            updated_at: utc_now(),
        };
        self.orders.submit(record);
        Admission::Submitted { order_id }
    }
}

} // verus!

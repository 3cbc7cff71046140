//! Idempotent order state machine tracking each order's lifecycle.
use std::collections::HashMap;
use vstd::prelude::*;
use vstd::std_specs::hash::group_hash_axioms;
use vstd::std_specs::iter::IteratorSpec;
use vstd::string::StringExecFns;

use crate::clock::{utc_now, UtcStamp};
use crate::ids::{uuid_string, uuid_text};

verus! {

broadcast use group_hash_axioms;

/// Lifecycle status of an order. Prices are carried as the IEEE-754 bit
/// pattern of the `f64` average fill price (`f64::to_bits`); the state
/// machine never computes with them.
#[derive(Debug, Clone, PartialEq)]
pub enum OrderStatus {
    New,
    Submitted,
    Acknowledged { broker_order_id: String },
    PartiallyFilled { filled_qty: u32, avg_price_bits: u64, broker_order_id: String },
    Filled { filled_qty: u32, avg_price_bits: u64, broker_order_id: String },
    Cancelled { reason: String },
    Rejected { reason: String },
}

/// One tracked order. Identifiers are the 128-bit values of UUIDs;
/// timestamps are UTC wall-clock times to the nanosecond.
#[derive(Debug, Clone)]
pub struct OrderRecord {
    pub order_id: u128,
    pub signal_id: u128,
    pub symbol: String,
    pub exchange: String,
    pub side: String,
    pub requested_qty: u32,
    pub status: OrderStatus,
    pub created_at: UtcStamp,
    pub updated_at: UtcStamp,
}

/// Filled, Cancelled and Rejected are terminal: no transition leaves them.
pub open spec fn is_terminal(status: OrderStatus) -> bool {
    status is Filled || status is Cancelled || status is Rejected
}

/// The transition relation of the order lifecycle:
/// Submitted → Acknowledged;
/// Submitted | Acknowledged | PartiallyFilled → PartiallyFilled | Filled;
/// New | Submitted | Acknowledged | PartiallyFilled → Cancelled;
/// New | Submitted → Rejected.
pub open spec fn transition_allowed(from: OrderStatus, to: OrderStatus) -> bool {
    match to {
        OrderStatus::Acknowledged { .. } => from is Submitted,
        OrderStatus::PartiallyFilled { .. } | OrderStatus::Filled { .. } => {
            from is Submitted || from is Acknowledged || from is PartiallyFilled
        },
        OrderStatus::Cancelled { .. } => {
            from is New || from is Submitted || from is Acknowledged || from is PartiallyFilled
        },
        OrderStatus::Rejected { .. } => from is New || from is Submitted,
        _ => false,
    }
}

/// The name of a status's variant.
pub open spec fn status_name(status: OrderStatus) -> Seq<char> {
    match status {
        OrderStatus::New => "New"@,
        OrderStatus::Submitted => "Submitted"@,
        OrderStatus::Acknowledged { .. } => "Acknowledged"@,
        OrderStatus::PartiallyFilled { .. } => "PartiallyFilled"@,
        OrderStatus::Filled { .. } => "Filled"@,
        OrderStatus::Cancelled { .. } => "Cancelled"@,
        OrderStatus::Rejected { .. } => "Rejected"@,
    }
}

/// The text that the derived `Debug` impl of `OrderStatus` writes for a status.
pub uninterp spec fn status_debug_text(status: OrderStatus) -> Seq<char>;

/// Writes a status with its derived `Debug` impl through `format!`. The text
/// is a function of the status alone, and is named by `status_debug_text`.
#[verifier::external_body]
fn status_debug_string(status: &OrderStatus) -> (text: String)
    ensures
        text@ == status_debug_text(*status),
{
    format!("{:?}", status)
}

/// The error for an order id that is not tracked.
pub open spec fn not_found_message(order_id: u128) -> Seq<char> {
    "Order "@ + uuid_text(order_id) + " not found"@
}

/// The error for a transition that the lifecycle forbids.
pub open spec fn transition_message(from: OrderStatus, to: OrderStatus) -> Seq<char> {
    "Cannot transition from "@ + status_debug_text(from) + " to "@ + status_name(to)
}

/// The record `rec` moved to `status` at time `at`.
pub open spec fn with_status(rec: OrderRecord, status: OrderStatus, at: UtcStamp) -> OrderRecord {
    OrderRecord {
        order_id: rec.order_id,
        signal_id: rec.signal_id,
        symbol: rec.symbol,
        exchange: rec.exchange,
        side: rec.side,
        requested_qty: rec.requested_qty,
        status: status,
        created_at: rec.created_at,
        updated_at: at,
    }
}

/// What an attempt to move order `order_id` of `before` to `next` leaves
/// behind in `after`, and returns in `result`.
pub open spec fn transition_outcome(
    before: Map<u128, OrderRecord>,
    after: Map<u128, OrderRecord>,
    order_id: u128,
    next: OrderStatus,
    result: Result<(), String>,
) -> bool {
    if !before.contains_key(order_id) {
        &&& after == before
        &&& result matches Err(msg) && msg@ == not_found_message(order_id)
    } else if !transition_allowed(before[order_id].status, next) {
        &&& after == before
        &&& result matches Err(msg) && msg@ == transition_message(
            before[order_id].status,
            next,
        )
    } else {
        &&& result is Ok
        &&& after.contains_key(order_id)
        &&& after == before.insert(
            order_id,
            with_status(before[order_id], next, after[order_id].updated_at),
        )
    }
}

/// Tracks orders by id and moves them through their lifecycle.
pub struct OrderStateMachine {
    orders: HashMap<u128, OrderRecord>,
}

impl View for OrderStateMachine {
    type V = Map<u128, OrderRecord>;

    closed spec fn view(&self) -> Map<u128, OrderRecord> {
        self.orders@
    }
}

/// Each record is tracked under its own order id.
pub open spec fn keyed_by_id(m: Map<u128, OrderRecord>) -> bool {
    forall|k: u128| #[trigger] m.contains_key(k) ==> m[k].order_id == k
}

/// `picked` holds, each once and in some order, exactly the records of `m`
/// whose status is terminal when `terminal` holds, and non-terminal otherwise.
pub open spec fn selects(m: Map<u128, OrderRecord>, picked: Seq<OrderRecord>, terminal: bool) -> bool {
    &&& forall|i: int|
        #![trigger picked[i]]
        0 <= i < picked.len() ==> {
            &&& m.contains_key(picked[i].order_id)
            &&& m[picked[i].order_id] == picked[i]
            &&& is_terminal(picked[i].status) == terminal
        }
    &&& forall|k: u128|
        #[trigger] m.contains_key(k) && is_terminal(m[k].status) == terminal ==> exists|i: int|
            0 <= i < picked.len() && #[trigger] picked[i].order_id == k
    &&& forall|i: int, j: int|
        0 <= i < j < picked.len() ==> #[trigger] picked[i].order_id != #[trigger] picked[j].order_id
}

/// Extending the selection over one more tracked key.
proof fn lemma_select_step(
    m: Map<u128, OrderRecord>,
    seen: Set<u128>,
    k: u128,
    picked: Seq<OrderRecord>,
    terminal: bool,
)
    requires
        keyed_by_id(m),
        m.contains_key(k),
        !seen.contains(k),
        selects(m.restrict(seen), picked, terminal),
    ensures
        selects(
            m.restrict(seen.insert(k)),
            if is_terminal(m[k].status) == terminal {
                picked.push(m[k])
            } else {
                picked
            },
            terminal,
        ),
{
    let before = m.restrict(seen);
    let after = m.restrict(seen.insert(k));
    let next = if is_terminal(m[k].status) == terminal {
        picked.push(m[k])
    } else {
        picked
    };
    assert forall|i: int| #![trigger next[i]] 0 <= i < next.len() implies {
        &&& after.contains_key(next[i].order_id)
        &&& after[next[i].order_id] == next[i]
        &&& is_terminal(next[i].status) == terminal
    } by {
        if i < picked.len() {
            assert(next[i] == picked[i]);
            assert(before.contains_key(picked[i].order_id));
        }
    }
    assert forall|q: u128| #[trigger]
        after.contains_key(q) && is_terminal(after[q].status) == terminal implies exists|i: int|
        0 <= i < next.len() && #[trigger] next[i].order_id == q by {
        if q == k {
            assert(next[next.len() - 1].order_id == q);
        } else {
            assert(before.contains_key(q));
            let i = choose|i: int| 0 <= i < picked.len() && #[trigger] picked[i].order_id == q;
            assert(next[i].order_id == q);
        }
    }
    assert forall|i: int, j: int| 0 <= i < j < next.len() implies #[trigger] next[i].order_id
        != #[trigger] next[j].order_id by {
        if j < picked.len() {
            assert(next[i] == picked[i] && next[j] == picked[j]);
        } else {
            assert(next[i] == picked[i]);
            assert(before.contains_key(picked[i].order_id));
        }
    }
}

impl OrderStateMachine {
    #[verifier::type_invariant]
    spec fn tracked_by_own_id(self) -> bool {
        keyed_by_id(self.orders@)
    }

    /// An empty state machine.
    pub fn new() -> (sm: Self)
        ensures
            sm@ == Map::<u128, OrderRecord>::empty(),
    {
        OrderStateMachine { orders: HashMap::new() }
    }

    /// Inserts a new order under its order id, replacing any record there.
    /// A new order starts in New or Submitted status.
    pub fn submit(&mut self, record: OrderRecord)
        requires
            record.status is New || record.status is Submitted,
        ensures
            final(self)@ == old(self)@.insert(record.order_id, record),
    {
        proof {
            use_type_invariant(&*self);
        }
        let id = record.order_id;
        let mut orders = HashMap::new();
        std::mem::swap(&mut orders, &mut self.orders);
        orders.insert(id, record);
        self.orders = orders;
    }

    /// Whether the lifecycle allows moving from `from` to `to`.
    fn allows(from: &OrderStatus, to: &OrderStatus) -> (ok: bool)
        ensures
            ok == transition_allowed(*from, *to),
    {
        match to {
            OrderStatus::Acknowledged { .. } => matches!(from, OrderStatus::Submitted),
            OrderStatus::PartiallyFilled { .. } | OrderStatus::Filled { .. } => matches!(
                from,
                OrderStatus::Submitted | OrderStatus::Acknowledged { .. }
                    | OrderStatus::PartiallyFilled { .. }
            ),
            OrderStatus::Cancelled { .. } => matches!(
                from,
                OrderStatus::New | OrderStatus::Submitted | OrderStatus::Acknowledged { .. }
                    | OrderStatus::PartiallyFilled { .. }
            ),
            OrderStatus::Rejected { .. } => matches!(
                from,
                OrderStatus::New | OrderStatus::Submitted
            ),
            _ => false,
        }
    }

    /// The variant name of a status.
    fn name_of(status: &OrderStatus) -> (name: &'static str)
        ensures
            name@ == status_name(*status),
    {
        match status {
            OrderStatus::New => "New",
            OrderStatus::Submitted => "Submitted",
            OrderStatus::Acknowledged { .. } => "Acknowledged",
            OrderStatus::PartiallyFilled { .. } => "PartiallyFilled",
            OrderStatus::Filled { .. } => "Filled",
            OrderStatus::Cancelled { .. } => "Cancelled",
            OrderStatus::Rejected { .. } => "Rejected",
        }
    }

    /// Moves order `order_id` to `next` where the lifecycle allows it,
    /// stamping the update time.
    fn advance(&mut self, order_id: u128, next: OrderStatus) -> (result: Result<(), String>)
        ensures
            transition_outcome(old(self)@, final(self)@, order_id, next, result),
    {
        proof {
            use_type_invariant(&*self);
        }
        let mut orders = HashMap::new();
        std::mem::swap(&mut orders, &mut self.orders);
        let result = match orders.remove(&order_id) {
            None => {
                let mut msg = String::from_str("Order ");
                let id_text = uuid_string(order_id);
                msg.append(id_text.as_str());
                msg.append(" not found");
                proof {
                    assert(orders@ =~= old(self).orders@);
                }
                Err(msg)
            },
            Some(mut rec) => {
                if Self::allows(&rec.status, &next) {
                    rec.status = next;
                    rec.updated_at = utc_now();
                    let ghost stamped = rec;
                    orders.insert(order_id, rec);
                    proof {
                        assert(orders@ =~= old(self).orders@.insert(
                            order_id,
                            with_status(old(self).orders@[order_id], next, stamped.updated_at),
                        ));
                    }
                    Ok(())
                } else {
                    let mut msg = String::from_str("Cannot transition from ");
                    let from_text = status_debug_string(&rec.status);
                    msg.append(from_text.as_str());
                    msg.append(" to ");
                    msg.append(Self::name_of(&next));
                    orders.insert(order_id, rec);
                    proof {
                        assert(orders@ =~= old(self).orders@);
                    }
                    Err(msg)
                }
            },
        };
        self.orders = orders;
        result
    }
}

impl OrderStateMachine {
    /// Transition Submitted → Acknowledged.
    pub fn acknowledge(&mut self, order_id: u128, broker_order_id: String) -> (result: Result<
        (),
        String,
    >)
        ensures
            transition_outcome(
                old(self)@,
                final(self)@,
                order_id,
                OrderStatus::Acknowledged { broker_order_id },
                result,
            ),
            result is Ok <==> old(self)@.contains_key(order_id) && old(self)@[order_id].status is Submitted,
            result is Err ==> final(self)@ == old(self)@,
    {
        self.advance(order_id, OrderStatus::Acknowledged { broker_order_id })
    }

    /// Transition Submitted | Acknowledged | PartiallyFilled → Filled.
    /// `avg_price_bits` is the bit pattern of the `f64` average fill price.
    pub fn fill(&mut self, order_id: u128, qty: u32, avg_price_bits: u64, broker_id: String) -> (result:
        Result<(), String>)
        ensures
            transition_outcome(
                old(self)@,
                final(self)@,
                order_id,
                OrderStatus::Filled {
                    filled_qty: qty,
                    avg_price_bits,
                    broker_order_id: broker_id,
                },
                result,
            ),
            result is Ok <==> old(self)@.contains_key(order_id) && (old(self)@[order_id].status is Submitted || old(self)@[order_id].status is Acknowledged
                    || old(self)@[order_id].status is PartiallyFilled),
            result is Err ==> final(self)@ == old(self)@,
    {
        self.advance(
            order_id,
            OrderStatus::Filled { filled_qty: qty, avg_price_bits, broker_order_id: broker_id },
        )
    }

    /// Transition Submitted | Acknowledged | PartiallyFilled → PartiallyFilled.
    /// `avg_price_bits` is the bit pattern of the `f64` average fill price.
    pub fn partial_fill(
        &mut self,
        order_id: u128,
        qty: u32,
        avg_price_bits: u64,
        broker_id: String,
    ) -> (result: Result<(), String>)
        ensures
            transition_outcome(
                old(self)@,
                final(self)@,
                order_id,
                OrderStatus::PartiallyFilled {
                    filled_qty: qty,
                    avg_price_bits,
                    broker_order_id: broker_id,
                },
                result,
            ),
            result is Ok <==> old(self)@.contains_key(order_id) && (old(self)@[order_id].status is Submitted || old(self)@[order_id].status is Acknowledged
                    || old(self)@[order_id].status is PartiallyFilled),
            result is Err ==> final(self)@ == old(self)@,
    {
        self.advance(
            order_id,
            OrderStatus::PartiallyFilled {
                filled_qty: qty,
                avg_price_bits,
                broker_order_id: broker_id,
            },
        )
    }

    /// Transition New | Submitted | Acknowledged | PartiallyFilled → Cancelled.
    pub fn cancel(&mut self, order_id: u128, reason: String) -> (result: Result<(), String>)
        ensures
            transition_outcome(
                old(self)@,
                final(self)@,
                order_id,
                OrderStatus::Cancelled { reason },
                result,
            ),
            result is Ok <==> old(self)@.contains_key(order_id) && (old(self)@[order_id].status is New || old(self)@[order_id].status is Submitted
                    || old(self)@[order_id].status is Acknowledged
                    || old(self)@[order_id].status is PartiallyFilled),
            result is Err ==> final(self)@ == old(self)@,
    {
        self.advance(order_id, OrderStatus::Cancelled { reason })
    }

    /// Transition New | Submitted → Rejected.
    pub fn reject(&mut self, order_id: u128, reason: String) -> (result: Result<(), String>)
        ensures
            transition_outcome(
                old(self)@,
                final(self)@,
                order_id,
                OrderStatus::Rejected { reason },
                result,
            ),
            result is Ok <==> old(self)@.contains_key(order_id) && (old(self)@[order_id].status is New || old(self)@[order_id].status is Submitted),
            result is Err ==> final(self)@ == old(self)@,
    {
        self.advance(order_id, OrderStatus::Rejected { reason })
    }

    /// The record tracked under `order_id`, if any.
    pub fn get(&self, order_id: &u128) -> (rec: Option<&OrderRecord>)
        ensures
            match rec {
                Some(r) => self@.contains_key(*order_id) && *r == self@[*order_id] && r.order_id
                    == *order_id,
                None => !self@.contains_key(*order_id),
            },
    {
        proof {
            use_type_invariant(self);
        }
        self.orders.get(order_id)
    }

    /// Whether a status is terminal.
    fn terminal(status: &OrderStatus) -> (t: bool)
        ensures
            t == is_terminal(*status),
    {
        matches!(
            status,
            OrderStatus::Filled { .. } | OrderStatus::Cancelled { .. } | OrderStatus::Rejected { .. }
        )
    }

    /// The records whose terminal-ness is `terminal`, each once.
    fn select(&self, terminal: bool) -> (picked: Vec<&OrderRecord>)
        ensures
            selects(self@, picked@.unref(), terminal),
    {
        proof {
            use_type_invariant(self);
        }
        let ghost m = self.orders@;
        let mut picked: Vec<&OrderRecord> = Vec::new();
        let keys = self.orders.keys();
        let ghost ks = keys.remaining().unref();
        for k in it: keys
            invariant
                m == self.orders@,
                keyed_by_id(m),
                ks == it.seq().unref(),
                ks.no_duplicates(),
                ks.to_set() == m.dom(),
                selects(
                    m.restrict(ks.take(it.index() as int).to_set()),
                    picked@.unref(),
                    terminal,
                ),
        {
            let ghost idx = it.index() as int;
            let ghost seen = ks.take(idx).to_set();
            proof {
                assert(*k == ks[idx]);
            }
            let rec = self.orders.get(k).unwrap();
            let ghost before = picked@.unref();
            if Self::terminal(&rec.status) == terminal {
                picked.push(rec);
            }
            proof {
                assert(picked@.unref() =~= if is_terminal(m[*k].status) == terminal {
                    before.push(m[*k])
                } else {
                    before
                });
                assert(ks.take(idx + 1).to_set() =~= seen.insert(*k)) by {
                    assert(ks.take(idx + 1) =~= ks.take(idx).push(*k));
                    ks.take(idx).lemma_push_to_set_commute(*k);
                }
                assert(!seen.contains(*k)) by {
                    if seen.contains(*k) {
                        let j = choose|j: int| 0 <= j < idx && ks.take(idx)[j] == *k;
                        assert(ks[j] == ks[idx]);
                    }
                }
                assert(ks.to_set().contains(*k));
                lemma_select_step(m, seen, *k, before, terminal);
            }
        }
        proof {
            assert(ks.take(ks.len() as int) =~= ks);
            assert(m.restrict(m.dom()) =~= m);
        }
        picked
    }
}

impl OrderStateMachine {
    /// The orders that are not yet in a terminal state, each once, in the
    /// order in which the map hands them out.
    pub fn active_orders(&self) -> (active: Vec<&OrderRecord>)
        ensures
            selects(self@, active@.unref(), false),
    {
        self.select(false)
    }

    /// The orders in a terminal state (Filled, Cancelled, Rejected), each
    /// once, in the order in which the map hands them out.
    pub fn completed_orders(&self) -> (completed: Vec<&OrderRecord>)
        ensures
            selects(self@, completed@.unref(), true),
    {
        self.select(true)
    }

    /// Number of tracked orders.
    pub fn len(&self) -> (n: usize)
        ensures
            n == self@.len(),
    {
        self.orders.len()
    }

    /// Whether no order is tracked.
    pub fn is_empty(&self) -> (empty: bool)
        ensures
            empty == (self@.len() == 0),
    {
        proof {
            assert(self.orders@.dom().finite());
            if self.orders@.len() == 0 {
                assert(self.orders@.dom() =~= Set::empty());
            }
            if self.orders@.is_empty() {
                assert(self.orders@.dom() =~= Set::empty());
            }
        }
        self.orders.is_empty()
    }
}

impl Default for OrderStateMachine {
    fn default() -> (sm: Self)
        ensures
            sm@ == Map::<u128, OrderRecord>::empty(),
    {
        Self::new()
    }
}

/// A terminal order is final: every attempt to move it fails with the
/// transition error and leaves every tracked order as it was.
pub proof fn lemma_terminal_orders_are_final(
    before: Map<u128, OrderRecord>,
    after: Map<u128, OrderRecord>,
    order_id: u128,
    next: OrderStatus,
    result: Result<(), String>,
)
    requires
        before.contains_key(order_id),
        is_terminal(before[order_id].status),
        transition_outcome(before, after, order_id, next, result),
    ensures
        after == before,
        result matches Err(msg) && msg@ == transition_message(before[order_id].status, next),
{
}

/// A transition, whether it succeeds or not, tracks the same orders as
/// before, touches no other order, and changes nothing of the moved order
/// but its status and update time.
pub proof fn lemma_transition_keeps_identity(
    before: Map<u128, OrderRecord>,
    after: Map<u128, OrderRecord>,
    order_id: u128,
    next: OrderStatus,
    result: Result<(), String>,
)
    requires
        transition_outcome(before, after, order_id, next, result),
    ensures
        after.dom() == before.dom(),
        forall|k: u128| #[trigger] before.contains_key(k) && k != order_id ==> after[k] == before[k],
        before.contains_key(order_id) ==> {
            let (b, a) = (before[order_id], after[order_id]);
            &&& a.order_id == b.order_id
            &&& a.signal_id == b.signal_id
            &&& a.symbol == b.symbol
            &&& a.exchange == b.exchange
            &&& a.side == b.side
            &&& a.requested_qty == b.requested_qty
            &&& a.created_at == b.created_at
        },
        result is Ok ==> after[order_id].status == next,
{
    if before.contains_key(order_id) && transition_allowed(before[order_id].status, next) {
        assert(after.dom() =~= before.dom());
    }
}

/// Submitting a record is idempotent: submitting it again leaves the same
/// tracked orders as submitting it once.
pub proof fn lemma_submit_idempotent(m: Map<u128, OrderRecord>, record: OrderRecord)
    ensures
        m.insert(record.order_id, record).insert(record.order_id, record) == m.insert(
            record.order_id,
            record,
        ),
{
    assert(m.insert(record.order_id, record).insert(record.order_id, record) =~= m.insert(
        record.order_id,
        record,
    ));
}

/// The tracked orders whose status is terminal, or whose status is not.
pub open spec fn keys_where(m: Map<u128, OrderRecord>, terminal: bool) -> Set<u128> {
    m.dom().filter(|k: u128| is_terminal(m[k].status) == terminal)
}

/// A selection holds one record for each key of its kind.
proof fn lemma_selection_len(m: Map<u128, OrderRecord>, picked: Seq<OrderRecord>, terminal: bool)
    requires
        m.dom().finite(),
        selects(m, picked, terminal),
    ensures
        picked.len() == keys_where(m, terminal).len(),
{
    let ids = picked.map_values(|r: OrderRecord| r.order_id);
    assert(ids.no_duplicates()) by {
        assert forall|i: int, j: int| 0 <= i < ids.len() && 0 <= j < ids.len() && i != j implies ids[i]
            != ids[j] by {
            if i < j {
                assert(picked[i].order_id != picked[j].order_id);
            } else {
                assert(picked[j].order_id != picked[i].order_id);
            }
        }
    }
    ids.unique_seq_to_set();
    assert(ids.to_set() =~= keys_where(m, terminal)) by {
        assert forall|k: u128| ids.to_set().contains(k) implies keys_where(m, terminal).contains(k) by {
            let i = choose|i: int| 0 <= i < ids.len() && ids[i] == k;
            assert(picked[i].order_id == k);
        }
        assert forall|k: u128| keys_where(m, terminal).contains(k) implies ids.to_set().contains(k) by {
            assert(m.contains_key(k) && is_terminal(m[k].status) == terminal);
            let i = choose|i: int| 0 <= i < picked.len() && #[trigger] picked[i].order_id == k;
            assert(ids[i] == k);
        }
    }
}

/// The active and the completed orders partition the tracked orders: any
/// two selections of the two kinds together hold as many records as the
/// state machine tracks.
pub proof fn lemma_active_and_completed_partition(
    m: Map<u128, OrderRecord>,
    active: Seq<OrderRecord>,
    completed: Seq<OrderRecord>,
)
    requires
        m.dom().finite(),
        selects(m, active, false),
        selects(m, completed, true),
    ensures
        active.len() + completed.len() == m.len(),
{
    lemma_selection_len(m, active, false);
    lemma_selection_len(m, completed, true);
    let a = keys_where(m, false);
    let c = keys_where(m, true);
    assert(a.disjoint(c));
    assert(a + c =~= m.dom());
    vstd::set_lib::lemma_set_disjoint_lens(a, c);
}

/// Rejection applies only to an order that the broker has not taken up:
/// rejecting a tracked order succeeds exactly when it is New or Submitted,
/// and then marks it Rejected; otherwise nothing changes.
pub proof fn lemma_reject_only_before_broker(
    before: Map<u128, OrderRecord>,
    after: Map<u128, OrderRecord>,
    order_id: u128,
    reason: String,
    result: Result<(), String>,
)
    requires
        before.contains_key(order_id),
        transition_outcome(before, after, order_id, OrderStatus::Rejected { reason }, result),
    ensures
        result is Ok <==> (before[order_id].status is New || before[order_id].status is Submitted),
        result is Ok ==> after[order_id].status == (OrderStatus::Rejected { reason }),
        result is Err ==> after == before,
{
}

/// Fills are recorded only on an order that has been sent: a fill or a
/// partial fill of a tracked order succeeds exactly when it is Submitted,
/// Acknowledged or PartiallyFilled, and then takes the new status; a New
/// order, or one that is finished, is left as it was.
pub proof fn lemma_fill_only_when_sent(
    before: Map<u128, OrderRecord>,
    after: Map<u128, OrderRecord>,
    order_id: u128,
    next: OrderStatus,
    result: Result<(), String>,
)
    requires
        next is Filled || next is PartiallyFilled,
        before.contains_key(order_id),
        transition_outcome(before, after, order_id, next, result),
    ensures
        result is Ok <==> (before[order_id].status is Submitted || before[order_id].status is Acknowledged
            || before[order_id].status is PartiallyFilled),
        before[order_id].status is New ==> result is Err && after == before,
        result is Ok ==> after[order_id].status == next,
        result is Err ==> after == before,
{
}

/// Acknowledgement applies only to a Submitted order.
pub proof fn lemma_acknowledge_only_when_submitted(
    before: Map<u128, OrderRecord>,
    after: Map<u128, OrderRecord>,
    order_id: u128,
    broker_order_id: String,
    result: Result<(), String>,
)
    requires
        before.contains_key(order_id),
        transition_outcome(
            before,
            after,
            order_id,
            OrderStatus::Acknowledged { broker_order_id },
            result,
        ),
    ensures
        result is Ok <==> before[order_id].status is Submitted,
        result is Err ==> after == before,
{
}

/// Cancellation applies exactly to the orders that are still live.
pub proof fn lemma_cancel_only_when_live(
    before: Map<u128, OrderRecord>,
    after: Map<u128, OrderRecord>,
    order_id: u128,
    reason: String,
    result: Result<(), String>,
)
    requires
        before.contains_key(order_id),
        transition_outcome(before, after, order_id, OrderStatus::Cancelled { reason }, result),
    ensures
        result is Ok <==> !(before[order_id].status is Filled || before[order_id].status is Cancelled
            || before[order_id].status is Rejected),
        result is Err ==> after == before,
{
}

/// Once a fill, partial or full, has been recorded on an order, the order
/// can no longer be rejected: the rejection fails and the book stays as the
/// fill left it.
pub proof fn lemma_no_reject_after_fill(
    start: Map<u128, OrderRecord>,
    filled: Map<u128, OrderRecord>,
    end: Map<u128, OrderRecord>,
    order_id: u128,
    fill: OrderStatus,
    reason: String,
    fill_result: Result<(), String>,
    reject_result: Result<(), String>,
)
    requires
        fill is Filled || fill is PartiallyFilled,
        transition_outcome(start, filled, order_id, fill, fill_result),
        fill_result is Ok,
        transition_outcome(filled, end, order_id, OrderStatus::Rejected { reason }, reject_result),
    ensures
        reject_result is Err,
        end == filled,
        end[order_id].status == fill,
{
}

} // verus!

//! Order submission gateway and reconciler.
//!
//! The gateway is the only path through which orders reach a broker:
//! - duplicate `client_order_id`s are refused before any broker call —
//!   including orders sitting in Unknown after a timeout. Retrying a
//!   timed-out order means reconciling it, never resubmitting it;
//! - a definitive venue rejection moves the order to Rejected; any other
//!   failure (timeout, transport, garbled response) moves it to Unknown —
//!   the broker may or may not have accepted it.
//!
//! The reconciler resolves Unknown orders against broker-side truth; orders
//! the broker has no record of never reached it (-> Rejected).
//!
//! The broker call itself is made by the caller between the two halves of a
//! submission ([`OrderGateway::submit`] and [`OrderGateway::settle`]), and
//! before [`Reconciler::reconcile`].

use vstd::prelude::*;
use crate::broker::{BrokerError, ExecutionReport, OrderAck, OrderRequest, broker_error_text};
use crate::domain::order::{Order, OrderStatus};
use crate::execution::state_machine::{
    EventView, OrderRecord, StateMachine, TransitionError, is_legal, unknown_entry_allowed,
};
use crate::text::{i64_text, int_text};
use crate::types::Timestamp;

verus! {

#[derive(Debug, Clone)]
pub enum SubmitError {
    Duplicate(String),
    Timeout(String),
    Broker(BrokerError),
    MachineError(TransitionError),
}

#[derive(Debug, Clone)]
pub enum ReconcileError {
    Machine(TransitionError),
    Broker(String),
}

/// Whether the machine accepts `id -> to`.
pub open spec fn accepts(m: Map<Seq<char>, OrderRecord>, id: Seq<char>, to: OrderStatus) -> bool {
    m.contains_key(id) && is_legal(m[id].status, to)
}

/// The machine after a successful `id -> to` step recording one event.
pub open spec fn stepped(
    m: Map<Seq<char>, OrderRecord>,
    id: Seq<char>,
    to: OrderStatus,
    reason: Seq<char>,
    at: Timestamp,
) -> Map<Seq<char>, OrderRecord> {
    m.insert(
        id,
        OrderRecord {
            registered: m[id].registered,
            status: to,
            history: m[id].history.push(
                EventView { client_order_id: id, from_status: m[id].status, to_status: to, reason, occurred_at: at },
            ),
        },
    )
}

/// Broker report -> order status.
pub open spec fn report_status(open: bool, filled: i64, ordered: i64) -> OrderStatus {
    if !open && filled >= ordered {
        OrderStatus::Filled
    } else if open {
        if filled > 0 {
            OrderStatus::PartiallyFilled
        } else {
            OrderStatus::Submitted
        }
    } else {
        OrderStatus::Cancelled
    }
}

/// Broker report -> order status (shared with execution sync).
pub fn target_status(report: &ExecutionReport) -> (r: OrderStatus)
    ensures
        r == report_status(report.open, report.filled_quantity, report.order_quantity),
{
    if !report.open && report.filled_quantity >= report.order_quantity {
        OrderStatus::Filled
    } else if report.open {
        if report.filled_quantity > 0 {
            OrderStatus::PartiallyFilled
        } else {
            OrderStatus::Submitted
        }
    } else {
        OrderStatus::Cancelled
    }
}

fn joined(a: &str, b: &str) -> (r: String)
    ensures
        r@ == a@ + b@,
{
    let mut text = String::from_str(a);
    text.append(b);
    text
}

/// The only submission path; duplicate protection is mechanical.
pub struct OrderGateway {
    /// client_order_id -> broker_order_id for submitted orders.
    broker_ids: Vec<(String, String)>,
}

spec fn pairs_map(s: Seq<(String, String)>) -> Map<Seq<char>, Seq<char>>
    decreases s.len(),
{
    if s.len() == 0 {
        Map::empty()
    } else {
        pairs_map(s.drop_last()).insert(s.last().0@, s.last().1@)
    }
}

impl View for OrderGateway {
    type V = Map<Seq<char>, Seq<char>>;

    closed spec fn view(&self) -> Map<Seq<char>, Seq<char>> {
        pairs_map(self.broker_ids@)
    }
}

impl OrderGateway {
    pub fn new() -> (r: OrderGateway)
        ensures
            r@ == Map::<Seq<char>, Seq<char>>::empty(),
    {
        OrderGateway { broker_ids: Vec::new() }
    }

    /// The broker's id for a submitted order.
    pub fn broker_order_id(&self, client_order_id: &str) -> (r: Option<String>)
        ensures
            match r {
                Some(b) => self@.contains_key(client_order_id@) && b@ == self@[client_order_id@],
                None => !self@.contains_key(client_order_id@),
            },
    {
        let target = String::from_str(client_order_id);
        let mut i: usize = self.broker_ids.len();
        while i > 0
            invariant
                0 <= i <= self.broker_ids@.len(),
                target@ == client_order_id@,
                forall|j: int| i <= j < self.broker_ids@.len() ==> #[trigger] self.broker_ids@[j].0@ != client_order_id@,
            decreases i,
        {
            if self.broker_ids[i - 1].0 == target {
                proof {
                    let s = self.broker_ids@;
                    lemma_pairs_suffix_free(s, i as int, client_order_id@);
                    assert(s.take(i as int).drop_last() =~= s.take(i - 1));
                }
                return Some(self.broker_ids[i - 1].1.clone());
            }
            i = i - 1;
        }
        proof {
            let s = self.broker_ids@;
            lemma_pairs_suffix_free(s, 0, client_order_id@);
            assert(s.take(0) =~= Seq::<(String, String)>::empty());
        }
        None
    }

    /// First half of a submission: refuses a reused `client_order_id`
    /// (known to the gateway or to the machine) before any broker call;
    /// otherwise registers the order as Pending and returns the request to
    /// send.
    pub fn submit(&self, machine: &mut StateMachine, order: &Order) -> (r: Result<OrderRequest, SubmitError>)
        ensures
            ({
                let id = order@.client_order_id;
                if self@.contains_key(id) || old(machine)@.contains_key(id) {
                    r matches Err(SubmitError::Duplicate(d)) && d@ == id && final(machine)@ == old(machine)@
                } else {
                    r matches Ok(req) && req.client_order_id@ == id && req.symbol@ == order@.symbol
                        && req.side == order@.side && req.order_type == order@.order_type
                        && req.quantity == order@.quantity && req.limit_price == order@.limit_price
                        && final(machine)@ == old(machine)@.insert(
                        id,
                        OrderRecord { registered: OrderStatus::Pending, status: OrderStatus::Pending, history: Seq::empty() },
                    )
                }
            }),
    {
        let client_order_id = order.client_order_id();
        let known = match self.broker_order_id(client_order_id) {
            Some(_) => true,
            None => false,
        };
        if known || machine.status(client_order_id).is_some() {
            return Err(SubmitError::Duplicate(String::from_str(client_order_id)));
        }
        match machine.register(client_order_id, OrderStatus::Pending) {
            Ok(()) => {},
            Err(e) => return Err(SubmitError::MachineError(e)),
        }
        Ok(
            OrderRequest {
                client_order_id: String::from_str(client_order_id),
                symbol: order.symbol().duplicate(),
                side: order.side(),
                order_type: order.order_type(),
                quantity: order.quantity(),
                limit_price: order.limit_price(),
            },
        )
    }

    /// Second half of a submission: records the broker's answer. An ack
    /// moves the order to Submitted and remembers the broker id; a
    /// definitive rejection moves it to Rejected; any other failure moves it
    /// to Unknown and reports a timeout.
    pub fn settle(
        &mut self,
        machine: &mut StateMachine,
        client_order_id: &str,
        outcome: Result<OrderAck, BrokerError>,
        at: Timestamp,
    ) -> (r: Result<OrderAck, SubmitError>)
        ensures
            ({
                let id = client_order_id@;
                let m = old(machine)@;
                match outcome {
                    Ok(ack) => if accepts(m, id, OrderStatus::Submitted) {
                        r matches Ok(a) && a.client_order_id@ == ack.client_order_id@
                            && a.broker_order_id@ == ack.broker_order_id@
                            && final(machine)@ == stepped(m, id, OrderStatus::Submitted, "broker ack "@ + ack.broker_order_id@, at)
                            && final(self)@ == old(self)@.insert(id, ack.broker_order_id@)
                    } else {
                        r matches Err(SubmitError::MachineError(_)) && final(machine)@ == m
                            && final(self)@ == old(self)@
                    },
                    Err(e) => if e is Rejected {
                        if accepts(m, id, OrderStatus::Rejected) {
                            r matches Err(SubmitError::Broker(b)) && b == e
                                && final(machine)@ == stepped(m, id, OrderStatus::Rejected, "broker rejected: "@ + broker_error_text(e), at)
                                && final(self)@ == old(self)@
                        } else {
                            r matches Err(SubmitError::MachineError(_)) && final(machine)@ == m
                                && final(self)@ == old(self)@
                        }
                    } else {
                        if m.contains_key(id) && unknown_entry_allowed(m[id].status) {
                            r matches Err(SubmitError::Timeout(t)) && t@ == broker_error_text(e)
                                && final(machine)@ == stepped(m, id, OrderStatus::Unknown, "no definitive answer: "@ + broker_error_text(e), at)
                                && final(self)@ == old(self)@
                        } else {
                            r matches Err(SubmitError::MachineError(_)) && final(machine)@ == m
                                && final(self)@ == old(self)@
                        }
                    },
                }
            }),
    {
        match outcome {
            Ok(ack) => {
                let reason = joined("broker ack ", ack.broker_order_id.as_str());
                proof {
                    reveal_strlit("broker ack ");
                }
                match machine.transition(client_order_id, OrderStatus::Submitted, reason.as_str(), at) {
                    Ok(_) => {},
                    Err(e) => return Err(SubmitError::MachineError(e)),
                }
                let ghost before = self.broker_ids@;
                self.broker_ids.push((String::from_str(client_order_id), ack.broker_order_id.clone()));
                proof {
                    assert(self.broker_ids@.drop_last() =~= before);
                }
                Ok(ack)
            },
            Err(error) => {
                let text = error.message();
                match error {
                    BrokerError::Rejected(_) => {
                        let reason = joined("broker rejected: ", text.as_str());
                        proof {
                            reveal_strlit("broker rejected: ");
                        }
                        match machine.transition(client_order_id, OrderStatus::Rejected, reason.as_str(), at) {
                            Ok(_) => {},
                            Err(e) => return Err(SubmitError::MachineError(e)),
                        }
                        Err(SubmitError::Broker(error))
                    },
                    _ => {
                        let reason = joined("no definitive answer: ", text.as_str());
                        proof {
                            reveal_strlit("no definitive answer: ");
                        }
                        match machine.mark_unknown(client_order_id, reason.as_str(), at) {
                            Ok(_) => {},
                            Err(e) => return Err(SubmitError::MachineError(e)),
                        }
                        Err(SubmitError::Timeout(text))
                    },
                }
            },
        }
    }
}

/// `true` / `false` as `{}` writes a `bool`.
pub open spec fn bool_text(b: bool) -> Seq<char> {
    if b {
        "true"@
    } else {
        "false"@
    }
}

/// The audit reason recorded when a report resolves an order.
pub open spec fn reconciled_reason(filled: i64, ordered: i64, open: bool) -> Seq<char> {
    "reconciled: filled "@ + int_text(filled as int) + "/"@ + int_text(ordered as int) + " open="@ + bool_text(open)
}

fn reconciled_text(filled: i64, ordered: i64, open: bool) -> (r: String)
    ensures
        r@ == reconciled_reason(filled, ordered, open),
{
    let mut text = String::from_str("reconciled: filled ");
    let f = i64_text(filled);
    text.append(f.as_str());
    text.append("/");
    let q = i64_text(ordered);
    text.append(q.as_str());
    text.append(" open=");
    if open {
        text.append("true");
    } else {
        text.append("false");
    }
    proof {
        reveal_strlit("reconciled: filled ");
        reveal_strlit("/");
        reveal_strlit(" open=");
        reveal_strlit("true");
        reveal_strlit("false");
    }
    text
}

/// Resolves Unknown/open orders against broker-side truth.
pub struct Reconciler;

impl Reconciler {
    pub fn new() -> (r: Reconciler) {
        Reconciler
    }

    /// What a reconciliation of the order needs before the broker is asked:
    /// an unregistered order is an error; an order no longer in Unknown is
    /// already resolved (`Some(status)`); an order in Unknown needs the
    /// broker's report (`None`).
    pub fn status_before_lookup(&self, machine: &StateMachine, client_order_id: &str) -> (r: Result<Option<OrderStatus>, ReconcileError>)
        ensures
            !machine@.contains_key(client_order_id@) ==> (r matches Err(ReconcileError::Machine(TransitionError::Unregistered(id)))
                && id@ == client_order_id@),
            machine@.contains_key(client_order_id@) && machine@[client_order_id@].status != OrderStatus::Unknown
                ==> r == Ok::<Option<OrderStatus>, ReconcileError>(Some(machine@[client_order_id@].status)),
            machine@.contains_key(client_order_id@) && machine@[client_order_id@].status == OrderStatus::Unknown
                ==> r == Ok::<Option<OrderStatus>, ReconcileError>(None),
    {
        match machine.status(client_order_id) {
            None => Err(ReconcileError::Machine(TransitionError::Unregistered(String::from_str(client_order_id)))),
            Some(OrderStatus::Unknown) => Ok(None),
            Some(status) => Ok(Some(status)),
        }
    }

    /// Resolve one order from Unknown using the broker's answer for it. An
    /// order no longer in Unknown is left as it is (idempotent); an order
    /// the broker has no record of never reached it and becomes Rejected;
    /// any other broker failure is reported and changes nothing.
    pub fn reconcile(
        &self,
        machine: &mut StateMachine,
        client_order_id: &str,
        report: Result<ExecutionReport, BrokerError>,
        at: Timestamp,
    ) -> (r: Result<OrderStatus, ReconcileError>)
        ensures
            ({
                let id = client_order_id@;
                let m = old(machine)@;
                if !m.contains_key(id) {
                    r matches Err(ReconcileError::Machine(TransitionError::Unregistered(d))) && d@ == id
                        && final(machine)@ == m
                } else if m[id].status != OrderStatus::Unknown {
                    r == Ok::<OrderStatus, ReconcileError>(m[id].status) && final(machine)@ == m
                } else {
                    match report {
                        Err(BrokerError::UnknownOrder(_)) => r == Ok::<OrderStatus, ReconcileError>(OrderStatus::Rejected)
                            && final(machine)@ == stepped(m, id, OrderStatus::Rejected, "not found at broker during reconciliation"@, at),
                        Err(e) => r matches Err(ReconcileError::Broker(t)) && t@ == broker_error_text(e)
                            && final(machine)@ == m,
                        Ok(rep) => {
                            let to = report_status(rep.open, rep.filled_quantity, rep.order_quantity);
                            if is_legal(OrderStatus::Unknown, to) {
                                r == Ok::<OrderStatus, ReconcileError>(to) && final(machine)@ == stepped(
                                    m,
                                    id,
                                    to,
                                    reconciled_reason(rep.filled_quantity, rep.order_quantity, rep.open),
                                    at,
                                )
                            } else {
                                r matches Err(ReconcileError::Machine(_)) && final(machine)@ == m
                            }
                        },
                    }
                }
            }),
    {
        let status = match machine.status(client_order_id) {
            Some(s) => s,
            None => return Err(ReconcileError::Machine(TransitionError::Unregistered(String::from_str(client_order_id)))),
        };
        if status != OrderStatus::Unknown {
            return Ok(status);
        }
        let report = match report {
            Ok(report) => report,
            Err(BrokerError::UnknownOrder(_)) => {
                let reason = "not found at broker during reconciliation";
                match machine.transition(client_order_id, OrderStatus::Rejected, reason, at) {
                    Ok(s) => return Ok(s),
                    Err(e) => return Err(ReconcileError::Machine(e)),
                }
            },
            Err(error) => {
                return Err(ReconcileError::Broker(error.message()));
            },
        };
        let target = target_status(&report);
        let reason = reconciled_text(report.filled_quantity, report.order_quantity, report.open);
        match machine.transition(client_order_id, target, reason.as_str(), at) {
            Ok(s) => Ok(s),
            Err(e) => Err(ReconcileError::Machine(e)),
        }
    }

    /// Restart recovery: an order left open by a previous process is
    /// registered directly at Unknown (its submission answer was outstanding
    /// when the process died); an order already known is left as it is.
    pub fn recover(&self, machine: &mut StateMachine, client_order_id: &str) -> (r: Result<(), ReconcileError>)
        ensures
            r is Ok,
            old(machine)@.contains_key(client_order_id@) ==> final(machine)@ == old(machine)@,
            !old(machine)@.contains_key(client_order_id@) ==> final(machine)@ == old(machine)@.insert(
                client_order_id@,
                OrderRecord { registered: OrderStatus::Unknown, status: OrderStatus::Unknown, history: Seq::empty() },
            ),
    {
        if machine.status(client_order_id).is_none() {
            match machine.register(client_order_id, OrderStatus::Unknown) {
                Ok(()) => {},
                Err(e) => return Err(ReconcileError::Machine(e)),
            }
        }
        Ok(())
    }
}

/// Entries after position `i` that never name `k` leave its lookup as the
/// first `i` entries give it.
proof fn lemma_pairs_suffix_free(s: Seq<(String, String)>, i: int, k: Seq<char>)
    requires
        0 <= i <= s.len(),
        forall|j: int| i <= j < s.len() ==> #[trigger] s[j].0@ != k,
    ensures
        pairs_map(s).contains_key(k) == pairs_map(s.take(i)).contains_key(k),
        pairs_map(s).contains_key(k) ==> pairs_map(s)[k] == pairs_map(s.take(i))[k],
    decreases s.len(),
{
    if s.len() == i {
        assert(s.take(i) =~= s);
    } else {
        let t = s.drop_last();
        assert(s[s.len() - 1].0@ != k);
        assert forall|j: int| i <= j < t.len() implies #[trigger] t[j].0@ != k by {
            assert(t[j] == s[j]);
        }
        lemma_pairs_suffix_free(t, i, k);
        assert(t.take(i) =~= s.take(i));
    }
}

/// Reconciliation always resolves an order: whatever the broker reports
/// maps to a status that Unknown may move to, and never back to Unknown.
pub proof fn reports_resolve_unknown(open: bool, filled: i64, ordered: i64)
    ensures
        report_status(open, filled, ordered) != OrderStatus::Unknown,
        is_legal(OrderStatus::Unknown, report_status(open, filled, ordered)),
        is_legal(OrderStatus::Unknown, OrderStatus::Rejected),
{
    crate::execution::state_machine::unknown_resolves_only_by_reconciliation();
}

/// A client order id reaches the broker at most once: once a submission
/// has registered it in the machine, every later submission of that id
/// meets the duplicate condition of [`OrderGateway::submit`] and is refused
/// before any broker call.
pub proof fn registered_ids_are_refused(
    known: Map<Seq<char>, Seq<char>>,
    machine: Map<Seq<char>, OrderRecord>,
    id: Seq<char>,
    record: OrderRecord,
)
    ensures
        known.contains_key(id) || machine.insert(id, record).contains_key(id),
{
}

} // verus!

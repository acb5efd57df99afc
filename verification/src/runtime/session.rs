//! The trading runtime's decisions between broker calls: order ids, which
//! sync step an order's status calls for, the fill a terminal report
//! books and the portfolio rebuilt from broker positions on restart.

use vstd::prelude::*;
use crate::broker::{ExecutionReport, Position};
use crate::decimal::Dec;
use crate::domain::order::OrderStatus;
use crate::domain::portfolio::{Fill, FillOutcome, Portfolio, PositionView, fill_outcome, lookup};
use crate::execution::gateway::bool_text;
use crate::text::{i64_text, int_text, u64_text, zero_pad, zero_padded};
use crate::types::OrderSide;

verus! {

/// `"{prefix}-{seq:04}"`.
pub open spec fn order_id_text(prefix: Seq<char>, seq: u64) -> Seq<char> {
    prefix + "-"@ + zero_pad(int_text(seq as int), 4)
}

/// The client order id of the session's `seq`-th order.
pub fn order_id(prefix: &str, seq: u64) -> (r: String)
    ensures
        r@ == order_id_text(prefix@, seq),
{
    let mut r = String::from_str(prefix);
    r.append("-");
    let digits = u64_text(seq);
    let padded = zero_padded(digits.as_str(), 4);
    r.append(padded.as_str());
    r
}

/// Orders still working at the broker.
pub open spec fn is_working(s: OrderStatus) -> bool {
    s == OrderStatus::Submitted || s == OrderStatus::PartiallyFilled
}

/// What one sync pass does for an order in `status`.
#[derive(Debug, Clone, Copy, PartialEq, Eq, Structural)]
pub enum SyncStep {
    /// Working: fetch the broker's execution report and follow it.
    FetchReport,
    /// Outcome unknown: reconciliation is the only way out.
    Reconcile,
    /// Nothing to ask the broker.
    Keep,
}

pub fn sync_step(status: OrderStatus) -> (r: SyncStep)
    ensures
        r == if is_working(status) {
            SyncStep::FetchReport
        } else if status == OrderStatus::Unknown {
            SyncStep::Reconcile
        } else {
            SyncStep::Keep
        },
{
    match status {
        OrderStatus::Submitted | OrderStatus::PartiallyFilled => SyncStep::FetchReport,
        OrderStatus::Unknown => SyncStep::Reconcile,
        _ => SyncStep::Keep,
    }
}

/// Whether an order in `status` stays in the open set after a sync.
pub fn still_working(status: OrderStatus) -> (r: bool)
    ensures
        r == is_working(status),
{
    match status {
        OrderStatus::Submitted | OrderStatus::PartiallyFilled => true,
        _ => false,
    }
}

/// The audit reason of a sync-driven transition.
pub open spec fn sync_reason_text(filled: i64, ordered: i64, open: bool) -> Seq<char> {
    "execution sync: filled "@ + int_text(filled as int) + "/"@ + int_text(ordered as int) + " open="@ + bool_text(open)
}

pub fn sync_reason(report: &ExecutionReport) -> (r: String)
    ensures
        r@ == sync_reason_text(report.filled_quantity, report.order_quantity, report.open),
{
    proof {
        reveal_strlit("true");
        reveal_strlit("false");
    }
    let mut r = String::from_str("execution sync: filled ");
    let f = i64_text(report.filled_quantity);
    r.append(f.as_str());
    r.append("/");
    let q = i64_text(report.order_quantity);
    r.append(q.as_str());
    r.append(" open=");
    r.append(if report.open { "true" } else { "false" });
    r
}

/// The fill a report books once its order is filled: the filled quantity
/// at the average fill price; nothing before, without a filled quantity or
/// without a price.
pub fn report_fill(client_order_id: &str, status: Option<OrderStatus>, report: &ExecutionReport) -> (r: Option<Fill>)
    ensures
        match r {
            Some(f) => status == Some(OrderStatus::Filled) && report.filled_quantity > 0
                && report.average_fill_price == Some(f.price) && f.client_order_id@ == client_order_id@
                && f.symbol@ == report.symbol@ && f.side == report.side && f.quantity == report.filled_quantity,
            None => status != Some(OrderStatus::Filled) || report.filled_quantity <= 0
                || report.average_fill_price is None,
        },
{
    match status {
        Some(OrderStatus::Filled) => {},
        _ => return None,
    }
    if report.filled_quantity <= 0 {
        return None;
    }
    match report.average_fill_price {
        Some(price) => Some(Fill {
            client_order_id: String::from_str(client_order_id),
            symbol: report.symbol.duplicate(),
            side: report.side,
            quantity: report.filled_quantity,
            price,
        }),
        None => None,
    }
}

/// The book the broker's positions rebuild: each non-empty position
/// bought at its average price, in order; a fill the book refuses is
/// skipped.
pub open spec fn rebuilt_book(positions: Seq<Position>) -> Map<Seq<char>, PositionView>
    decreases positions.len(),
{
    if positions.len() == 0 {
        Map::empty()
    } else {
        let m = rebuilt_book(positions.drop_last());
        let p = positions.last();
        if p.quantity == 0 {
            m
        } else {
            match fill_outcome(lookup(m, p.symbol@), p.symbol@, OrderSide::Buy, p.quantity, p.average_price) {
                FillOutcome::Updated(u) => m.insert(p.symbol@, u),
                _ => m,
            }
        }
    }
}

/// `"restore-{symbol}"`.
pub open spec fn restore_id(symbol: Seq<char>) -> Seq<char> {
    "restore-"@ + symbol
}

/// Replace local portfolio state with broker-side positions.
pub fn rebuild_portfolio(positions: &Vec<Position>) -> (r: Portfolio)
    ensures
        r@ == rebuilt_book(positions@),
{
    let mut book = Portfolio::new();
    let mut i: usize = 0;
    assert(positions@.take(0) =~= Seq::<Position>::empty());
    while i < positions.len()
        invariant
            0 <= i <= positions@.len(),
            book@ == rebuilt_book(positions@.take(i as int)),
        decreases positions@.len() - i,
    {
        proof {
            assert(positions@.take(i + 1).drop_last() =~= positions@.take(i as int));
        }
        let position = &positions[i];
        if position.quantity != 0 {
            let mut id = String::from_str("restore-");
            id.append(position.symbol.as_str());
            let fill = Fill {
                client_order_id: id,
                symbol: position.symbol.duplicate(),
                side: OrderSide::Buy,
                quantity: position.quantity,
                price: position.average_price,
            };
            match book.apply_fill(fill) {
                Ok(next) => {
                    book = next;
                },
                Err(_) => {},
            }
        }
        i = i + 1;
    }
    assert(positions@.take(positions@.len() as int) =~= positions@);
    book
}

} // verus!

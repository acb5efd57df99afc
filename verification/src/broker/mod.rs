//! Broker abstraction — the only boundary where venue specifics may appear.
//!
//! The venue itself is reached asynchronously by the application; the
//! library holds the plain records exchanged with it, and an in-memory
//! venue for tests and the backtester.

pub mod mock;

use vstd::prelude::*;
use crate::decimal::{Dec, dec_le, dec_lt};
use crate::types::{OrderSide, OrderType, Price, Quantity, Symbol, Timestamp};

verus! {

/// A pre-risk-checked order intent ready for submission.
///
/// `client_order_id` is the idempotency key: brokers treat resubmission of
/// the same id as the same order, never a duplicate one.
#[derive(Debug, Clone)]
pub struct OrderRequest {
    pub client_order_id: String,
    pub symbol: Symbol,
    pub side: OrderSide,
    pub order_type: OrderType,
    pub quantity: Quantity,
    pub limit_price: Option<Price>,
}

/// Broker acceptance of an order submission.
#[derive(Debug, Clone)]
pub struct OrderAck {
    pub client_order_id: String,
    pub broker_order_id: String,
}

impl OrderAck {
    pub fn duplicate(&self) -> (r: OrderAck)
        ensures
            r.client_order_id@ == self.client_order_id@,
            r.broker_order_id@ == self.broker_order_id@,
    {
        OrderAck {
            client_order_id: self.client_order_id.clone(),
            broker_order_id: self.broker_order_id.clone(),
        }
    }
}

/// Current execution state of an order as known by the broker.
///
/// Orders with remaining quantity and open status are what restart
/// reconciliation must resolve — the broker is the source of truth.
#[derive(Debug, Clone)]
pub struct ExecutionReport {
    pub broker_order_id: String,
    pub client_order_id: String,
    pub symbol: Symbol,
    pub side: OrderSide,
    pub order_type: OrderType,
    pub order_quantity: Quantity,
    pub filled_quantity: Quantity,
    pub average_fill_price: Option<Price>,
    pub open: bool,
    pub timestamp: Timestamp,
}

/// A held quantity of one symbol with its average acquisition price.
#[derive(Debug, Clone)]
pub struct Position {
    pub symbol: Symbol,
    pub quantity: Quantity,
    pub average_price: Price,
}

#[derive(Debug, Clone)]
pub enum BrokerError {
    UnknownSymbol(String),
    NotOpen(String),
    InsufficientPosition { symbol: String },
    UnknownOrder(String),
    /// A definitive refusal by the venue.
    Rejected(String),
    Internal(String),
}

/// The message text of a broker error.
pub open spec fn broker_error_text(e: BrokerError) -> Seq<char> {
    match e {
        BrokerError::UnknownSymbol(s) => "no quote configured for symbol "@ + s@,
        BrokerError::NotOpen(s) => "order "@ + s@ + " is not open"@,
        BrokerError::InsufficientPosition { symbol } => "insufficient position for "@ + symbol@ + " to sell"@,
        BrokerError::UnknownOrder(s) => "order "@ + s@ + " not found"@,
        BrokerError::Rejected(s) => "broker rejected order: "@ + s@,
        BrokerError::Internal(s) => "broker failure: "@ + s@,
    }
}

impl BrokerError {
    /// The error's message text.
    pub fn message(&self) -> (r: String)
        ensures
            r@ == broker_error_text(*self),
    {
        let (head, body, tail) = match self {
            BrokerError::UnknownSymbol(s) => ("no quote configured for symbol ", s, ""),
            BrokerError::NotOpen(s) => ("order ", s, " is not open"),
            BrokerError::InsufficientPosition { symbol } => ("insufficient position for ", symbol, " to sell"),
            BrokerError::UnknownOrder(s) => ("order ", s, " not found"),
            BrokerError::Rejected(s) => ("broker rejected order: ", s, ""),
            BrokerError::Internal(s) => ("broker failure: ", s, ""),
        };
        let mut text = String::from_str(head);
        text.append(body.as_str());
        text.append(tail);
        proof {
            reveal_strlit("");
            reveal_strlit("no quote configured for symbol ");
            reveal_strlit("order ");
            reveal_strlit(" is not open");
            reveal_strlit("insufficient position for ");
            reveal_strlit(" to sell");
            reveal_strlit(" not found");
            reveal_strlit("broker rejected order: ");
            reveal_strlit("broker failure: ");
            assert(text@ == head@ + body@ + tail@);
        }
        text
    }
}

/// A limit order fills when the market crosses it.
pub open spec fn crosses(side: OrderSide, market: Dec, limit: Dec) -> bool {
    match side {
        OrderSide::Buy => dec_le(market, limit),
        OrderSide::Sell => dec_le(limit, market),
    }
}

/// Fills limit orders when the market crosses them, at the limit price.
pub fn limit_crosses(side: OrderSide, market: Dec, limit: Dec) -> (r: bool)
    ensures
        r == crosses(side, market, limit),
{
    match side {
        OrderSide::Buy => market.le(&limit),
        OrderSide::Sell => market.ge(&limit),
    }
}


/// A limit order crosses exactly when the market is at or through its
/// limit: a sell limit above the market (a buy limit below it) never
/// crosses, and a limit at the market always does; a higher market only
/// helps a sell, a lower one only a buy.
pub proof fn limits_cross_only_through_the_market(market: Dec, limit: Dec, higher: Dec)
    ensures
        crosses(OrderSide::Sell, market, limit) <==> !dec_lt(market, limit),
        crosses(OrderSide::Buy, market, limit) <==> !dec_lt(limit, market),
        crosses(OrderSide::Sell, market, market),
        crosses(OrderSide::Buy, market, market),
        crosses(OrderSide::Sell, market, limit) && dec_le(market, higher) && higher.sc() == market.sc()
            ==> crosses(OrderSide::Sell, higher, limit),
        crosses(OrderSide::Buy, higher, limit) && dec_le(market, higher) && higher.sc() == market.sc()
            ==> crosses(OrderSide::Buy, market, limit),
{
    crate::decimal::lemma_pow10_positive(limit.sc());
    crate::decimal::lemma_pow10_positive(market.sc());
    let p = crate::decimal::pow10(limit.sc());
    if dec_le(market, higher) && higher.sc() == market.sc() {
        assert(market.mant() <= higher.mant()) by (nonlinear_arith)
            requires
                market.mant() * crate::decimal::pow10(higher.sc()) - higher.mant() * crate::decimal::pow10(market.sc()) <= 0,
                higher.sc() == market.sc(),
                crate::decimal::pow10(market.sc()) > 0,
        ;
        assert(market.mant() * p <= higher.mant() * p) by (nonlinear_arith)
            requires
                market.mant() <= higher.mant(),
                p > 0,
        ;
    }
}
} // verus!

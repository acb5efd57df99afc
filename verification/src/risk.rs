//! Pre-trade risk checks gating every order.
//!
//! Check order is load-bearing: kill switch first — it blocks even without
//! quotes — then quote presence, staleness, order notional, per-symbol
//! position cap (buys only), gross exposure, and the daily realized-loss
//! limit. All checks are pure functions of (order, portfolio, quotes,
//! limits, kill state, now).

use vstd::prelude::*;
use crate::config::RiskSettings;
use crate::decimal::{
    Dec, dec_lt, dec_neg, dec_of_int, dec_sum, decimal_checked_add, decimal_checked_mul,
    decimal_text,
};
use crate::domain::order::{Order, OrderView};
use crate::domain::portfolio::{Portfolio, PositionView, lookup, position_views};
use crate::text::{i64_text, int_text};
use crate::types::{OrderSide, Quote, Symbol, Timestamp, find_quote, quote_for};

verus! {

#[derive(Debug, Clone, Copy)]
pub struct RiskLimits {
    pub max_order_notional: Dec,
    pub max_position_quantity: i64,
    pub max_gross_exposure: Dec,
    pub daily_loss_limit: Dec,
    /// Oldest acceptable quote age, in milliseconds.
    pub stale_quote_max_age_ms: i64,
}

impl RiskLimits {
    /// Limits from settings (amounts in whole KRW, age in seconds).
    pub fn from_settings(settings: &RiskSettings) -> (r: RiskLimits)
        requires
            settings.stale_quote_seconds * 1000 <= i64::MAX,
        ensures
            r.max_order_notional == dec_of_int(settings.max_order_notional as int),
            r.max_position_quantity == settings.max_position_quantity,
            r.max_gross_exposure == dec_of_int(settings.gross_exposure as int),
            r.daily_loss_limit == dec_of_int(settings.daily_loss_limit as int),
            r.stale_quote_max_age_ms == settings.stale_quote_seconds * 1000,
    {
        RiskLimits {
            max_order_notional: Dec::from_i64(settings.max_order_notional),
            max_position_quantity: settings.max_position_quantity,
            max_gross_exposure: Dec::from_i64(settings.gross_exposure),
            daily_loss_limit: Dec::from_i64(settings.daily_loss_limit),
            stale_quote_max_age_ms: (settings.stale_quote_seconds * 1000) as i64,
        }
    }
}

#[derive(Debug, Clone, Copy, PartialEq, Eq, Structural)]
pub enum RejectionReason {
    KillSwitch,
    NoQuote,
    StaleMarketData,
    OrderNotionalExceeded,
    PositionQuantityExceeded,
    GrossExposureExceeded,
    DailyLossLimitExceeded,
    /// An exact amount left its range while checking the order.
    ArithmeticOverflow,
}

pub open spec fn reason_name(r: RejectionReason) -> Seq<char> {
    match r {
        RejectionReason::KillSwitch => "kill_switch"@,
        RejectionReason::NoQuote => "no_quote"@,
        RejectionReason::StaleMarketData => "stale_market_data"@,
        RejectionReason::OrderNotionalExceeded => "order_notional_exceeded"@,
        RejectionReason::PositionQuantityExceeded => "position_quantity_exceeded"@,
        RejectionReason::GrossExposureExceeded => "gross_exposure_exceeded"@,
        RejectionReason::DailyLossLimitExceeded => "daily_loss_limit_exceeded"@,
        RejectionReason::ArithmeticOverflow => "arithmetic_overflow"@,
    }
}

impl RejectionReason {
    pub fn as_str(&self) -> (r: &'static str)
        ensures
            r@ == reason_name(*self),
    {
        match self {
            RejectionReason::KillSwitch => "kill_switch",
            RejectionReason::NoQuote => "no_quote",
            RejectionReason::StaleMarketData => "stale_market_data",
            RejectionReason::OrderNotionalExceeded => "order_notional_exceeded",
            RejectionReason::PositionQuantityExceeded => "position_quantity_exceeded",
            RejectionReason::GrossExposureExceeded => "gross_exposure_exceeded",
            RejectionReason::DailyLossLimitExceeded => "daily_loss_limit_exceeded",
            RejectionReason::ArithmeticOverflow => "arithmetic_overflow",
        }
    }
}

#[derive(Debug, Clone)]
pub struct OrderRejected {
    pub reason: RejectionReason,
    pub detail: String,
}

impl OrderRejected {
    /// `"{reason}: {detail}"`, the rejection's message.
    pub fn message(&self) -> (r: String)
        ensures
            r@ == reason_name(self.reason) + ": "@ + self.detail@,
    {
        let mut text = String::from_str(self.reason.as_str());
        text.append(": ");
        text.append(self.detail.as_str());
        proof {
            reveal_strlit(": ");
        }
        text
    }
}

/// Integer division rounding toward zero (`b > 0`).
pub open spec fn trunc_div(a: int, b: int) -> int {
    if a >= 0 {
        a / b
    } else {
        -((-a) / b)
    }
}

/// A held position's exposure: quantity times its quoted price, or its
/// average price where no quote exists.
pub open spec fn position_value(p: PositionView, quotes: Seq<Quote>) -> Option<Dec> {
    let price = match quote_for(quotes, p.symbol) {
        Some(q) => q.last_price,
        None => p.average_price,
    };
    decimal_checked_mul(dec_of_int(p.quantity as int), price)
}

/// Quote-valued gross exposure over the positions with a positive
/// quantity, summed in order from zero; `None` on overflow.
pub open spec fn gross_sum(entries: Seq<PositionView>, quotes: Seq<Quote>) -> Option<Dec>
    decreases entries.len(),
{
    if entries.len() == 0 {
        Some(dec_of_int(0))
    } else {
        match gross_sum(entries.drop_last(), quotes) {
            Some(acc) => if entries.last().quantity > 0 {
                match position_value(entries.last(), quotes) {
                    Some(v) => decimal_checked_add(acc, v),
                    None => None,
                }
            } else {
                Some(acc)
            },
            None => None,
        }
    }
}

/// The answer of a risk check.
pub enum RiskOutcome {
    Accepted(Dec),
    Rejected(RejectionReason, Seq<char>),
}

pub open spec fn overflow_detail() -> Seq<char> {
    "arithmetic overflow while checking the order"@
}

pub open spec fn stale_detail(symbol: Seq<char>, age_ns: int, max_ms: int) -> Seq<char> {
    "quote for "@ + symbol + " is "@ + int_text(trunc_div(age_ns, 1_000_000_000)) + "s old (max "@
        + int_text(trunc_div(max_ms, 1000)) + "s)"@
}

/// Buy-side checks after the notional passed: position cap, then gross
/// exposure.
pub open spec fn buy_checks(
    limits: RiskLimits,
    order: OrderView,
    notional: Dec,
    book: Map<Seq<char>, PositionView>,
    entries: Seq<PositionView>,
    quotes: Seq<Quote>,
) -> Option<RiskOutcome> {
    let held: int = match lookup(book, order.symbol) {
        Some(p) => p.quantity as int,
        None => 0,
    };
    let projected = held + order.quantity;
    if projected < i64::MIN || projected > i64::MAX {
        Some(RiskOutcome::Rejected(RejectionReason::ArithmeticOverflow, overflow_detail()))
    } else if projected > limits.max_position_quantity {
        Some(
            RiskOutcome::Rejected(
                RejectionReason::PositionQuantityExceeded,
                "projected "@ + order.symbol + " quantity "@ + int_text(projected) + " > max "@ + int_text(
                    limits.max_position_quantity as int,
                ),
            ),
        )
    } else {
        match gross_sum(entries, quotes) {
            None => Some(RiskOutcome::Rejected(RejectionReason::ArithmeticOverflow, overflow_detail())),
            Some(gross) => match decimal_checked_add(gross, notional) {
                None => Some(RiskOutcome::Rejected(RejectionReason::ArithmeticOverflow, overflow_detail())),
                Some(after) => if dec_lt(limits.max_gross_exposure, after) {
                    Some(
                        RiskOutcome::Rejected(
                            RejectionReason::GrossExposureExceeded,
                            "gross exposure "@ + decimal_text(after) + " > max "@ + decimal_text(
                                limits.max_gross_exposure,
                            ),
                        ),
                    )
                } else {
                    None
                },
            },
        }
    }
}

/// The daily realized-loss check, then acceptance.
pub open spec fn loss_check(limits: RiskLimits, notional: Dec, entries: Seq<PositionView>) -> RiskOutcome {
    match dec_sum(entries.map_values(|p: PositionView| p.realized_pnl)) {
        None => RiskOutcome::Rejected(RejectionReason::ArithmeticOverflow, overflow_detail()),
        Some(realized) => if dec_lt(realized, dec_neg(limits.daily_loss_limit)) {
            RiskOutcome::Rejected(
                RejectionReason::DailyLossLimitExceeded,
                "realized loss "@ + decimal_text(realized) + " beyond limit -"@ + decimal_text(limits.daily_loss_limit),
            )
        } else {
            RiskOutcome::Accepted(notional)
        },
    }
}

/// The whole pre-trade check, in its load-bearing order.
pub open spec fn risk_outcome(
    limits: RiskLimits,
    kill_active: bool,
    kill_reason: Option<Seq<char>>,
    order: OrderView,
    book: Map<Seq<char>, PositionView>,
    entries: Seq<PositionView>,
    quotes: Seq<Quote>,
    now: Timestamp,
) -> RiskOutcome {
    if kill_active {
        RiskOutcome::Rejected(
            RejectionReason::KillSwitch,
            "kill switch active: "@ + match kill_reason {
                Some(t) => t,
                None => Seq::<char>::empty(),
            },
        )
    } else {
        match quote_for(quotes, order.symbol) {
            None => RiskOutcome::Rejected(RejectionReason::NoQuote, "no quote available for "@ + order.symbol),
            Some(q) => {
                let age: int = now - q.timestamp;
                if age > limits.stale_quote_max_age_ms * 1_000_000 {
                    RiskOutcome::Rejected(
                        RejectionReason::StaleMarketData,
                        stale_detail(order.symbol, age, limits.stale_quote_max_age_ms as int),
                    )
                } else {
                    let price = match order.limit_price {
                        Some(p) => p,
                        None => q.last_price,
                    };
                    match decimal_checked_mul(dec_of_int(order.quantity as int), price) {
                        None => RiskOutcome::Rejected(RejectionReason::ArithmeticOverflow, overflow_detail()),
                        Some(notional) => if dec_lt(limits.max_order_notional, notional) {
                            RiskOutcome::Rejected(
                                RejectionReason::OrderNotionalExceeded,
                                "order notional "@ + decimal_text(notional) + " > max "@ + decimal_text(
                                    limits.max_order_notional,
                                ),
                            )
                        } else if order.side == OrderSide::Buy && buy_checks(
                            limits,
                            order,
                            notional,
                            book,
                            entries,
                            quotes,
                        ) is Some {
                            buy_checks(limits, order, notional, book, entries, quotes).unwrap()
                        } else {
                            loss_check(limits, notional, entries)
                        },
                    }
                }
            },
        }
    }
}

/// Whether a result carries a risk outcome.
pub open spec fn answers(r: Result<Dec, OrderRejected>, o: RiskOutcome) -> bool {
    match o {
        RiskOutcome::Accepted(n) => r == Ok::<Dec, OrderRejected>(n),
        RiskOutcome::Rejected(reason, detail) => r matches Err(e) && e.reason == reason && e.detail@ == detail,
    }
}

/// The kill switch's state.
pub struct KillView {
    pub active: bool,
    pub reason: Option<Seq<char>>,
}

/// Stateful only for the kill switch; everything else derives from inputs.
pub struct RiskManager {
    limits: RiskLimits,
    kill_active: bool,
    kill_reason: Option<String>,
}

impl View for RiskManager {
    type V = KillView;

    closed spec fn view(&self) -> KillView {
        KillView {
            active: self.kill_active,
            reason: match self.kill_reason {
                Some(t) => Some(t@),
                None => None,
            },
        }
    }
}

fn joined(a: &str, b: &str) -> (r: String)
    ensures
        r@ == a@ + b@,
{
    let mut text = String::from_str(a);
    text.append(b);
    text
}

fn joined4(a: &str, b: &str, c: &str, d: &str) -> (r: String)
    ensures
        r@ == a@ + b@ + c@ + d@,
{
    let mut text = String::from_str(a);
    text.append(b);
    text.append(c);
    text.append(d);
    text
}

/// `a / b` rounded toward zero, for `b > 0`.
fn trunc_div_exec(a: i128, b: i128) -> (r: i128)
    requires
        b > 0,
        -0x1_0000_0000_0000_0000i128 < a < 0x1_0000_0000_0000_0000i128,
    ensures
        r == trunc_div(a as int, b as int),
{
    if a >= 0 {
        (a as u128 / b as u128) as i128
    } else {
        let m = (-a) as u128;
        -((m / b as u128) as i128)
    }
}

impl RiskManager {
    pub closed spec fn limits(self) -> RiskLimits {
        self.limits
    }

    pub fn new(limits: RiskLimits) -> (r: RiskManager)
        ensures
            r.limits() == limits,
            r@.active == false,
            r@.reason is None,
    {
        RiskManager { limits, kill_active: false, kill_reason: None }
    }

    pub fn kill_switch_active(&self) -> (r: bool)
        ensures
            r == self@.active,
    {
        self.kill_active
    }

    pub fn kill_reason(&self) -> (r: Option<String>)
        ensures
            match r {
                Some(t) => self@.reason == Some(t@),
                None => self@.reason is None,
            },
    {
        match &self.kill_reason {
            Some(t) => Some(t.clone()),
            None => None,
        }
    }

    pub fn activate_kill_switch(&mut self, reason: &str)
        ensures
            final(self)@.active,
            final(self)@.reason == Some(reason@),
            final(self).limits() == old(self).limits(),
    {
        self.kill_active = true;
        self.kill_reason = Some(String::from_str(reason));
    }

    pub fn deactivate_kill_switch(&mut self)
        ensures
            !final(self)@.active,
            final(self)@.reason is None,
            final(self).limits() == old(self).limits(),
    {
        self.kill_active = false;
        self.kill_reason = None;
    }

    /// Validate one order against the book as of `now`; returns the order
    /// notional or rejects.
    #[verifier::rlimit(60)]
    pub fn check_order(&self, order: &Order, portfolio: &Portfolio, quotes: &Vec<Quote>, now: Timestamp) -> (r: Result<Dec, OrderRejected>)
        ensures
            answers(
                r,
                risk_outcome(self.limits(), self@.active, self@.reason, order@, portfolio@, portfolio.entries(), quotes@, now),
            ),
    {
        if self.kill_active {
            let reason = match &self.kill_reason {
                Some(t) => t.clone(),
                None => String::new(),
            };
            let detail = joined("kill switch active: ", reason.as_str());
            proof {
                reveal_strlit("kill switch active: ");
            }
            return Err(OrderRejected { reason: RejectionReason::KillSwitch, detail });
        }
        let symbol = order.symbol();
        let quote = match find_quote(quotes, symbol) {
            Some(i) => &quotes[i],
            None => {
                let detail = joined("no quote available for ", symbol.as_str());
                proof {
                    reveal_strlit("no quote available for ");
                }
                return Err(OrderRejected { reason: RejectionReason::NoQuote, detail });
            },
        };
        let age: i128 = now as i128 - quote.timestamp as i128;
        let max_age: i128 = self.limits.stale_quote_max_age_ms as i128 * 1_000_000;
        if age > max_age {
            let age_s = trunc_div_exec(age, 1_000_000_000);
            let max_s = trunc_div_exec(self.limits.stale_quote_max_age_ms as i128, 1000);
            let age_text = i64_text(age_s as i64);
            let max_text = i64_text(max_s as i64);
            let head = joined4("quote for ", symbol.as_str(), " is ", age_text.as_str());
            let detail = joined4(head.as_str(), "s old (max ", max_text.as_str(), "s)");
            proof {
                reveal_strlit("quote for ");
                reveal_strlit(" is ");
                reveal_strlit("s old (max ");
                reveal_strlit("s)");
            }
            return Err(OrderRejected { reason: RejectionReason::StaleMarketData, detail });
        }
        let price = match order.limit_price() {
            Some(p) => p,
            None => quote.last_price,
        };
        let notional = match Dec::from_i64(order.quantity()).checked_mul(&price) {
            Some(n) => n,
            None => return Err(overflow_rejection()),
        };
        if self.limits.max_order_notional.lt(&notional) {
            let n_text = notional.to_text();
            let m_text = self.limits.max_order_notional.to_text();
            let detail = joined4("order notional ", n_text.as_str(), " > max ", m_text.as_str());
            proof {
                reveal_strlit("order notional ");
                reveal_strlit(" > max ");
            }
            return Err(OrderRejected { reason: RejectionReason::OrderNotionalExceeded, detail });
        }
        if order.side() == OrderSide::Buy {
            match self.buy_side(order, notional, portfolio, quotes) {
                Some(rejection) => return Err(rejection),
                None => {},
            }
        }
        self.loss_side(notional, portfolio)
    }

    fn buy_side(&self, order: &Order, notional: Dec, portfolio: &Portfolio, quotes: &Vec<Quote>) -> (r: Option<OrderRejected>)
        ensures
            match buy_checks(self.limits(), order@, notional, portfolio@, portfolio.entries(), quotes@) {
                Some(o) => r matches Some(e) && answers(Err(e), o),
                None => r is None,
            },
    {
        let symbol = order.symbol();
        let held: i64 = match portfolio.position(symbol) {
            Some(p) => p.quantity,
            None => 0,
        };
        let projected = match held.checked_add(order.quantity()) {
            Some(v) => v,
            None => return Some(overflow_rejection()),
        };
        if projected > self.limits.max_position_quantity {
            let p_text = i64_text(projected);
            let m_text = i64_text(self.limits.max_position_quantity);
            let head = joined4("projected ", symbol.as_str(), " quantity ", p_text.as_str());
            let detail = joined4(head.as_str(), " > max ", m_text.as_str(), "");
            proof {
                reveal_strlit("projected ");
                reveal_strlit(" quantity ");
                reveal_strlit(" > max ");
                reveal_strlit("");
            }
            return Some(OrderRejected { reason: RejectionReason::PositionQuantityExceeded, detail });
        }
        let gross = match gross_exposure(portfolio, quotes) {
            Some(g) => g,
            None => return Some(overflow_rejection()),
        };
        let after = match gross.checked_add(&notional) {
            Some(a) => a,
            None => return Some(overflow_rejection()),
        };
        if self.limits.max_gross_exposure.lt(&after) {
            let a_text = after.to_text();
            let m_text = self.limits.max_gross_exposure.to_text();
            let detail = joined4("gross exposure ", a_text.as_str(), " > max ", m_text.as_str());
            proof {
                reveal_strlit("gross exposure ");
                reveal_strlit(" > max ");
            }
            return Some(OrderRejected { reason: RejectionReason::GrossExposureExceeded, detail });
        }
        None
    }

    fn loss_side(&self, notional: Dec, portfolio: &Portfolio) -> (r: Result<Dec, OrderRejected>)
        ensures
            answers(r, loss_check(self.limits(), notional, portfolio.entries())),
    {
        let realized = match portfolio.total_realized_pnl() {
            Some(v) => v,
            None => return Err(overflow_rejection()),
        };
        if realized.lt(&self.limits.daily_loss_limit.neg()) {
            let r_text = realized.to_text();
            let l_text = self.limits.daily_loss_limit.to_text();
            let detail = joined4("realized loss ", r_text.as_str(), " beyond limit -", l_text.as_str());
            proof {
                reveal_strlit("realized loss ");
                reveal_strlit(" beyond limit -");
            }
            return Err(OrderRejected { reason: RejectionReason::DailyLossLimitExceeded, detail });
        }
        Ok(notional)
    }
}

fn overflow_rejection() -> (r: OrderRejected)
    ensures
        r.reason == RejectionReason::ArithmeticOverflow,
        r.detail@ == overflow_detail(),
{
    let detail = String::from_str("arithmetic overflow while checking the order");
    proof {
        reveal_strlit("arithmetic overflow while checking the order");
    }
    OrderRejected { reason: RejectionReason::ArithmeticOverflow, detail }
}

/// Quote-valued gross exposure; positions without a quote fall back to
/// their average price. `None` on overflow.
pub fn gross_exposure(portfolio: &Portfolio, quotes: &Vec<Quote>) -> (r: Option<Dec>)
    ensures
        r == gross_sum(portfolio.entries(), quotes@),
{
    let positions = portfolio.positions();
    let ghost entries = portfolio.entries();
    let mut acc = Dec::zero();
    let mut i: usize = 0;
    while i < positions.len()
        invariant
            0 <= i <= positions@.len(),
            position_views(positions@) == entries,
            entries == portfolio.entries(),
            gross_sum(entries.take(i as int), quotes@) == Some(acc),
        decreases positions.len() - i,
    {
        proof {
            assert(entries.take(i + 1).drop_last() =~= entries.take(i as int));
            assert(entries[i as int] == positions@[i as int]@);
            assert(entries.take(i + 1).last() == entries[i as int]);
        }
        let p = &positions[i];
        assert(p@ == entries[i as int]);
        if p.quantity > 0 {
            let price = match find_quote(quotes, &p.symbol) {
                Some(k) => quotes[k].last_price,
                None => p.average_price,
            };
            let value = match Dec::from_i64(p.quantity).checked_mul(&price) {
                Some(v) => v,
                None => {
                    proof {
                        lemma_gross_none_extends(entries, quotes@, i + 1);
                    }
                    return None;
                },
            };
            acc = match acc.checked_add(&value) {
                Some(v) => v,
                None => {
                    proof {
                        lemma_gross_none_extends(entries, quotes@, i + 1);
                    }
                    return None;
                },
            };
        }
        i = i + 1;
    }
    proof {
        assert(entries.take(i as int) =~= entries);
    }
    Some(acc)
}

/// Once a prefix's exposure overflows, every longer prefix does too.
pub proof fn lemma_gross_none_extends(entries: Seq<PositionView>, quotes: Seq<Quote>, k: int)
    requires
        0 <= k <= entries.len(),
        gross_sum(entries.take(k), quotes) is None,
    ensures
        gross_sum(entries, quotes) is None,
    decreases entries.len() - k,
{
    if k < entries.len() {
        assert(entries.take(k + 1).drop_last() =~= entries.take(k));
        lemma_gross_none_extends(entries, quotes, k + 1);
    } else {
        assert(entries.take(k) =~= entries);
    }
}

/// With the kill switch engaged every order is refused for it, before any
/// quote, limit or book is looked at.
pub proof fn kill_switch_refuses_every_order(
    limits: RiskLimits,
    reason: Option<Seq<char>>,
    order: OrderView,
    book: Map<Seq<char>, PositionView>,
    entries: Seq<PositionView>,
    quotes: Seq<Quote>,
    now: Timestamp,
)
    ensures
        risk_outcome(limits, true, reason, order, book, entries, quotes, now) matches RiskOutcome::Rejected(r, _)
            && r == RejectionReason::KillSwitch,
{
}

/// A sell is never refused for the position cap or the gross-exposure cap:
/// reducing exposure must always pass those two.
pub proof fn sells_skip_position_and_exposure_caps(
    limits: RiskLimits,
    kill_active: bool,
    reason: Option<Seq<char>>,
    order: OrderView,
    book: Map<Seq<char>, PositionView>,
    entries: Seq<PositionView>,
    quotes: Seq<Quote>,
    now: Timestamp,
)
    requires
        order.side == OrderSide::Sell,
    ensures
        !(risk_outcome(limits, kill_active, reason, order, book, entries, quotes, now) matches RiskOutcome::Rejected(r, _)
            && (r == RejectionReason::PositionQuantityExceeded || r == RejectionReason::GrossExposureExceeded)),
{
}

/// A buy is judged against the exposure it would leave: once it has
/// passed the quote, freshness, notional and position checks, it is
/// refused for gross exposure exactly when the book's quote-valued gross
/// exposure plus the order's own notional exceeds the cap (and for an
/// arithmetic overflow when that sum cannot be formed).
pub proof fn buys_count_their_own_notional(
    limits: RiskLimits,
    reason: Option<Seq<char>>,
    order: OrderView,
    book: Map<Seq<char>, PositionView>,
    entries: Seq<PositionView>,
    quotes: Seq<Quote>,
    now: Timestamp,
    q: Quote,
    notional: Dec,
    gross: Dec,
)
    requires
        order.side == OrderSide::Buy,
        quote_for(quotes, order.symbol) == Some(q),
        now - q.timestamp <= limits.stale_quote_max_age_ms * 1_000_000,
        decimal_checked_mul(dec_of_int(order.quantity as int), match order.limit_price {
            Some(p) => p,
            None => q.last_price,
        }) == Some(notional),
        !dec_lt(limits.max_order_notional, notional),
        (match lookup(book, order.symbol) {
            Some(p) => p.quantity as int,
            None => 0int,
        }) + order.quantity <= limits.max_position_quantity,
        i64::MIN <= (match lookup(book, order.symbol) {
            Some(p) => p.quantity as int,
            None => 0int,
        }) + order.quantity,
        gross_sum(entries, quotes) == Some(gross),
    ensures
        match decimal_checked_add(gross, notional) {
            None => risk_outcome(limits, false, reason, order, book, entries, quotes, now) matches RiskOutcome::Rejected(r, _)
                && r == RejectionReason::ArithmeticOverflow,
            Some(after) => (risk_outcome(limits, false, reason, order, book, entries, quotes, now) matches RiskOutcome::Rejected(
                r,
                _,
            ) && r == RejectionReason::GrossExposureExceeded) <==> dec_lt(limits.max_gross_exposure, after),
        },
{
}

/// Without a quote for the symbol (and the kill switch off) the order is
/// refused for the missing quote.
pub proof fn missing_quote_refused(
    limits: RiskLimits,
    reason: Option<Seq<char>>,
    order: OrderView,
    book: Map<Seq<char>, PositionView>,
    entries: Seq<PositionView>,
    quotes: Seq<Quote>,
    now: Timestamp,
)
    requires
        quote_for(quotes, order.symbol) is None,
    ensures
        risk_outcome(limits, false, reason, order, book, entries, quotes, now) matches RiskOutcome::Rejected(r, _)
            && r == RejectionReason::NoQuote,
{
}

/// The daily loss limit binds both sides: an order that passed the quote,
/// staleness, notional (and, for a buy, the cap) checks is refused once the
/// book's realized loss is beyond the limit.
pub proof fn loss_limit_blocks_both_sides(
    limits: RiskLimits,
    reason: Option<Seq<char>>,
    order: OrderView,
    book: Map<Seq<char>, PositionView>,
    entries: Seq<PositionView>,
    quotes: Seq<Quote>,
    now: Timestamp,
    q: Quote,
    notional: Dec,
    realized: Dec,
)
    requires
        quote_for(quotes, order.symbol) == Some(q),
        now - q.timestamp <= limits.stale_quote_max_age_ms * 1_000_000,
        decimal_checked_mul(dec_of_int(order.quantity as int), match order.limit_price {
            Some(p) => p,
            None => q.last_price,
        }) == Some(notional),
        !dec_lt(limits.max_order_notional, notional),
        order.side == OrderSide::Sell || buy_checks(limits, order, notional, book, entries, quotes) is None,
        dec_sum(entries.map_values(|p: PositionView| p.realized_pnl)) == Some(realized),
        dec_lt(realized, dec_neg(limits.daily_loss_limit)),
    ensures
        risk_outcome(limits, false, reason, order, book, entries, quotes, now) matches RiskOutcome::Rejected(r, _)
            && r == RejectionReason::DailyLossLimitExceeded,
{
}

} // verus!

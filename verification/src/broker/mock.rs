//! In-memory broker for tests and the backtester.
//!
//! Fills market orders immediately at the configured price; limit orders
//! fill when the market crosses them (at the limit price) and otherwise
//! stay open. Deterministic: the same script of calls yields the same state.
//! The instant stamped on reports and quotes is handed in by the caller.

use vstd::prelude::*;
use crate::decimal::Dec;
use crate::domain::{blended_average, blended_average_spec};
use crate::symbol_map::SymbolMap;
use crate::symbol_table::SymbolTable;
use crate::text::{nat_digits, u64_text};
use crate::types::{OrderSide, OrderType, Quote, Symbol, Timestamp};
use super::{BrokerError, ExecutionReport, OrderAck, OrderRequest, Position, crosses, limit_crosses};

verus! {

/// A report as plain values.
pub struct ReportView {
    pub broker_order_id: Seq<char>,
    pub client_order_id: Seq<char>,
    pub symbol: Seq<char>,
    pub side: OrderSide,
    pub order_type: OrderType,
    pub order_quantity: i64,
    pub filled_quantity: i64,
    pub average_fill_price: Option<Dec>,
    pub open: bool,
    pub timestamp: Timestamp,
}

impl View for ExecutionReport {
    type V = ReportView;

    open spec fn view(&self) -> ReportView {
        ReportView {
            broker_order_id: self.broker_order_id@,
            client_order_id: self.client_order_id@,
            symbol: self.symbol@,
            side: self.side,
            order_type: self.order_type,
            order_quantity: self.order_quantity,
            filled_quantity: self.filled_quantity,
            average_fill_price: self.average_fill_price,
            open: self.open,
            timestamp: self.timestamp,
        }
    }
}

pub open spec fn report_views(s: Seq<ExecutionReport>) -> Seq<ReportView> {
    Seq::new(s.len(), |i: int| s[i]@)
}

/// The first report with this broker id.
pub open spec fn report_for(s: Seq<ReportView>, broker_order_id: Seq<char>) -> Option<(int, ReportView)>
    decreases s.len(),
{
    if s.len() == 0 {
        None
    } else if s[0].broker_order_id == broker_order_id {
        Some((0, s[0]))
    } else {
        match report_for(s.skip(1), broker_order_id) {
            Some((i, r)) => Some((i + 1, r)),
            None => None,
        }
    }
}

/// A report found by id is the one held at the index it names.
pub proof fn lemma_report_for_index(s: Seq<ReportView>, broker_order_id: Seq<char>)
    ensures
        report_for(s, broker_order_id) matches Some((i, r)) ==> 0 <= i < s.len() && s[i] == r,
    decreases s.len(),
{
    if s.len() > 0 && s[0].broker_order_id != broker_order_id {
        lemma_report_for_index(s.skip(1), broker_order_id);
    }
}

/// The broker id of the first ack for this client id.
pub open spec fn ack_for(s: Seq<(Seq<char>, Seq<char>)>, client_order_id: Seq<char>) -> Option<Seq<char>>
    decreases s.len(),
{
    if s.len() == 0 {
        None
    } else if s[0].0 == client_order_id {
        Some(s[0].1)
    } else {
        ack_for(s.skip(1), client_order_id)
    }
}

/// The venue after it takes `request` at `now`: unchanged for a repeated
/// client id, an unknown symbol, an exhausted id space or a fill it cannot
/// book; else with the acknowledgement, the report and (on a fill) the
/// position recorded.
pub open spec fn venue_after_submit(m: MockView, request: OrderRequest, now: Timestamp) -> MockView {
    let id = request.client_order_id@;
    let sym = request.symbol@;
    if ack_for(m.acks, id) is Some || !m.prices.contains_key(sym) || m.next_broker_id == u64::MAX {
        m
    } else {
        let price = m.prices[sym];
        let fills = request.order_type == OrderType::Market || (request.limit_price matches Some(l) && crosses(
            request.side,
            price,
            l,
        ));
        let fill_price = match request.order_type {
            OrderType::Market => price,
            OrderType::Limit => match request.limit_price {
                Some(l) => l,
                None => price,
            },
        };
        let current = if m.positions.contains_key(sym) { Some(m.positions[sym]) } else { None };
        let after = mock_position_after(current, request.side, request.quantity, fill_price);
        let bid = mock_id(m.next_broker_id);
        if fills && after is None {
            m
        } else {
            MockView {
                prices: m.prices,
                acks: m.acks.push((id, bid)),
                reports: m.reports.push(
                    ReportView {
                        broker_order_id: bid,
                        client_order_id: id,
                        symbol: sym,
                        side: request.side,
                        order_type: request.order_type,
                        order_quantity: request.quantity,
                        filled_quantity: if fills { request.quantity } else { 0 },
                        average_fill_price: if fills { Some(fill_price) } else { None },
                        open: !fills,
                        timestamp: now,
                    },
                ),
                positions: if !fills {
                    m.positions
                } else {
                    match after.unwrap() {
                        Some(p) => m.positions.insert(sym, p),
                        None => m.positions.remove(sym),
                    }
                },
                next_broker_id: (m.next_broker_id + 1) as u64,
            }
        }
    }
}

/// A new limit order that does not reach the market rests: a sell limit
/// above the venue's price (a buy limit below it) is acknowledged with an
/// open report that filled nothing, and the positions do not move.
pub proof fn limits_away_from_the_market_rest(m: MockView, request: OrderRequest, now: Timestamp)
    requires
        ack_for(m.acks, request.client_order_id@) is None,
        m.prices.contains_key(request.symbol@),
        m.next_broker_id < u64::MAX,
        request.order_type == OrderType::Limit,
        request.limit_price matches Some(l) && (if request.side == OrderSide::Sell {
            crate::decimal::dec_lt(m.prices[request.symbol@], l)
        } else {
            crate::decimal::dec_lt(l, m.prices[request.symbol@])
        }),
    ensures
        ({
            let after = venue_after_submit(m, request, now);
            &&& after.reports.len() == m.reports.len() + 1
            &&& after.reports.last().filled_quantity == 0
            &&& after.reports.last().open
            &&& after.reports.last().average_fill_price is None
            &&& after.positions == m.positions
        }),
{
    crate::broker::limits_cross_only_through_the_market(m.prices[request.symbol@], request.limit_price.unwrap(), m.prices[request.symbol@]);
}

/// A new acknowledgement is found for its order when none was before.
pub proof fn lemma_ack_for_push(s: Seq<(Seq<char>, Seq<char>)>, id: Seq<char>, b: Seq<char>)
    requires
        ack_for(s, id) is None,
    ensures
        ack_for(s.push((id, b)), id) == Some(b),
    decreases s.len(),
{
    if s.len() > 0 {
        assert(s.push((id, b)).skip(1) =~= s.skip(1).push((id, b)));
        lemma_ack_for_push(s.skip(1), id, b);
    }
}

/// `a` begins `b`: the venue's logs only ever grow at their end.
pub open spec fn begins<T>(a: Seq<T>, b: Seq<T>) -> bool {
    a.len() <= b.len() && forall|i: int| 0 <= i < a.len() ==> #[trigger] b[i] == a[i]
}

/// The state of the in-memory venue.
pub struct MockView {
    pub prices: Map<Seq<char>, Dec>,
    /// (client_order_id, broker_order_id) in submission order.
    pub acks: Seq<(Seq<char>, Seq<char>)>,
    pub reports: Seq<ReportView>,
    /// Held (quantity, average price) per symbol.
    pub positions: Map<Seq<char>, (i64, Dec)>,
    pub next_broker_id: u64,
}

/// What a fill does to the venue's position in one symbol: `None` where the
/// exact arithmetic overflows.
pub open spec fn mock_position_after(
    current: Option<(i64, Dec)>,
    side: OrderSide,
    quantity: i64,
    price: Dec,
) -> Option<Option<(i64, Dec)>> {
    match side {
        OrderSide::Buy => match current {
            None => Some(Some((quantity, price))),
            Some((held, average)) => if held + quantity < i64::MIN || held + quantity > i64::MAX {
                None
            } else {
                match blended_average_spec(held as int, average, quantity as int, price) {
                    Some(avg) => Some(Some(((held + quantity) as i64, avg))),
                    None => None,
                }
            },
        },
        OrderSide::Sell => match current {
            None => Some(None),
            Some((held, average)) => if held < quantity {
                Some(Some((held, average)))
            } else if held - quantity > i64::MAX {
                None
            } else if held - quantity == 0 {
                Some(None)
            } else {
                Some(Some(((held - quantity) as i64, average)))
            },
        },
    }
}

/// `"MOCK-{n}"`.
pub open spec fn mock_id(n: u64) -> Seq<char> {
    "MOCK-"@ + nat_digits(n as nat)
}

/// Deterministic in-memory venue.
pub struct MockBroker {
    prices: SymbolMap<Dec>,
    acks: Vec<OrderAck>,
    reports: Vec<ExecutionReport>,
    positions: SymbolTable<(i64, Dec)>,
    next_broker_id: u64,
}

impl View for MockBroker {
    type V = MockView;

    closed spec fn view(&self) -> MockView {
        MockView {
            prices: self.prices@,
            acks: Seq::new(self.acks@.len(), |i: int| (self.acks@[i].client_order_id@, self.acks@[i].broker_order_id@)),
            reports: report_views(self.reports@),
            positions: self.positions@,
            next_broker_id: self.next_broker_id,
        }
    }
}

pub fn copy_report(r: &ExecutionReport) -> (c: ExecutionReport)
    ensures
        c@ == r@,
{
    ExecutionReport {
        broker_order_id: r.broker_order_id.clone(),
        client_order_id: r.client_order_id.clone(),
        symbol: r.symbol.duplicate(),
        side: r.side,
        order_type: r.order_type,
        order_quantity: r.order_quantity,
        filled_quantity: r.filled_quantity,
        average_fill_price: r.average_fill_price,
        open: r.open,
        timestamp: r.timestamp,
    }
}

impl MockBroker {
    pub fn new() -> (r: MockBroker)
        ensures
            r@.prices == Map::<Seq<char>, Dec>::empty(),
            r@.acks == Seq::<(Seq<char>, Seq<char>)>::empty(),
            r@.reports == Seq::<ReportView>::empty(),
            r@.positions == Map::<Seq<char>, (i64, Dec)>::empty(),
            r@.next_broker_id == 1,
    {
        let r = MockBroker {
            prices: SymbolMap::new(),
            acks: Vec::new(),
            reports: Vec::new(),
            positions: SymbolTable::new(),
            next_broker_id: 1,
        };
        assert(r@.acks =~= Seq::<(Seq<char>, Seq<char>)>::empty());
        assert(r@.reports =~= Seq::<ReportView>::empty());
        r
    }

    /// Configure the quote price used for subsequent fills.
    pub fn set_price(&mut self, symbol: &Symbol, price: Dec)
        ensures
            final(self)@ == (MockView { prices: old(self)@.prices.insert(symbol@, price), ..old(self)@ }),
    {
        self.prices.insert(symbol.duplicate(), price);
        assert(self@.acks =~= old(self)@.acks);
    }

    fn find_ack(&self, client_order_id: &str) -> (r: Option<usize>)
        ensures
            match r {
                Some(i) => i < self.acks@.len() && ack_for(self@.acks, client_order_id@) == Some(self.acks@[i as int].broker_order_id@)
                    && self.acks@[i as int].client_order_id@ == client_order_id@,
                None => ack_for(self@.acks, client_order_id@) is None,
            },
    {
        let ghost acks = self@.acks;
        let mut i: usize = 0;
        assert(acks.skip(0) =~= acks);
        while i < self.acks.len()
            invariant
                0 <= i <= self.acks@.len(),
                acks == self@.acks,
                ack_for(acks, client_order_id@) == ack_for(acks.skip(i as int), client_order_id@),
            decreases self.acks.len() - i,
        {
            proof {
                assert(acks.skip(i as int)[0] == acks[i as int]);
                assert(acks.skip(i as int).skip(1) =~= acks.skip(i + 1));
            }
            if crate::text::text_equal(self.acks[i].client_order_id.as_str(), client_order_id) {
                return Some(i);
            }
            i = i + 1;
        }
        None
    }

    fn find_report(&self, broker_order_id: &str) -> (r: Option<usize>)
        ensures
            match r {
                Some(i) => i < self.reports@.len() && report_for(self@.reports, broker_order_id@) == Some((i as int, self.reports@[i as int]@)),
                None => report_for(self@.reports, broker_order_id@) is None,
            },
    {
        let ghost reps = self@.reports;
        let mut i: usize = 0;
        assert(reps.skip(0) =~= reps);
        while i < self.reports.len()
            invariant
                0 <= i <= self.reports@.len(),
                reps == self@.reports,
                report_for(reps, broker_order_id@) == (match report_for(reps.skip(i as int), broker_order_id@) {
                    Some((k, r)) => Some((k + i, r)),
                    None => None,
                }),
            decreases self.reports.len() - i,
        {
            proof {
                assert(reps.skip(i as int)[0] == reps[i as int]);
                assert(reps.skip(i as int).skip(1) =~= reps.skip(i + 1));
            }
            if crate::text::text_equal(self.reports[i].broker_order_id.as_str(), broker_order_id) {
                return Some(i);
            }
            i = i + 1;
        }
        None
    }

    /// Submit an order; idempotent on `client_order_id`.
    pub fn submit_order(&mut self, request: &OrderRequest, now: Timestamp) -> (r: Result<OrderAck, BrokerError>)
        ensures
            ({
                let m = old(self)@;
                let id = request.client_order_id@;
                let sym = request.symbol@;
                match ack_for(m.acks, id) {
                    Some(b) => r matches Ok(a) && a.client_order_id@ == id && a.broker_order_id@ == b
                        && final(self)@ == m,
                    None => if !m.prices.contains_key(sym) {
                        r matches Err(BrokerError::UnknownSymbol(s)) && s@ == sym && final(self)@ == m
                    } else if m.next_broker_id == u64::MAX {
                        r matches Err(BrokerError::Internal(_)) && final(self)@ == m
                    } else {
                        let price = m.prices[sym];
                        let fills = request.order_type == OrderType::Market || (request.limit_price matches Some(l)
                            && crosses(request.side, price, l));
                        let fill_price = match request.order_type {
                            OrderType::Market => price,
                            OrderType::Limit => match request.limit_price {
                                Some(l) => l,
                                None => price,
                            },
                        };
                        let current = if m.positions.contains_key(sym) { Some(m.positions[sym]) } else { None };
                        let after = mock_position_after(current, request.side, request.quantity, fill_price);
                        let bid = mock_id(m.next_broker_id);
                        let report = ReportView {
                            broker_order_id: bid,
                            client_order_id: id,
                            symbol: sym,
                            side: request.side,
                            order_type: request.order_type,
                            order_quantity: request.quantity,
                            filled_quantity: if fills { request.quantity } else { 0 },
                            average_fill_price: if fills { Some(fill_price) } else { None },
                            open: !fills,
                            timestamp: now,
                        };
                        if fills && after is None {
                            r matches Err(BrokerError::Internal(_)) && final(self)@ == m
                        } else {
                            r matches Ok(a) && a.client_order_id@ == id && a.broker_order_id@ == bid
                                && final(self)@ == (MockView {
                                prices: m.prices,
                                acks: m.acks.push((id, bid)),
                                reports: m.reports.push(report),
                                positions: if !fills {
                                    m.positions
                                } else {
                                    match after.unwrap() {
                                        Some(p) => m.positions.insert(sym, p),
                                        None => m.positions.remove(sym),
                                    }
                                },
                                next_broker_id: (m.next_broker_id + 1) as u64,
                            })
                        }
                    },
                }
            }),
            final(self)@ == venue_after_submit(old(self)@, *request, now),
            final(self)@.prices == old(self)@.prices,
            begins(old(self)@.acks, final(self)@.acks),
            begins(old(self)@.reports, final(self)@.reports),
    {
        match self.find_ack(request.client_order_id.as_str()) {
            Some(i) => return Ok(self.acks[i].duplicate()),
            None => {},
        }
        let price = match self.prices.get(&request.symbol) {
            Some(p) => *p,
            None => return Err(BrokerError::UnknownSymbol(String::from_str(request.symbol.as_str()))),
        };
        if self.next_broker_id == u64::MAX {
            return Err(BrokerError::Internal(String::from_str("broker id space exhausted")));
        }
        let fills = match request.order_type {
            OrderType::Market => true,
            OrderType::Limit => match request.limit_price {
                Some(limit) => limit_crosses(request.side, price, limit),
                None => false,
            },
        };
        let fill_price = match request.order_type {
            OrderType::Market => price,
            OrderType::Limit => match request.limit_price {
                Some(l) => l,
                None => price,
            },
        };
        let current: Option<(i64, Dec)> = match self.positions.get(&request.symbol) {
            Some(p) => Some(*p),
            None => None,
        };
        let after = position_after(current, request.side, request.quantity, fill_price);
        if fills && after.is_none() {
            return Err(BrokerError::Internal(String::from_str("position arithmetic overflow")));
        }
        let mut broker_order_id = String::from_str("MOCK-");
        let digits = u64_text(self.next_broker_id);
        broker_order_id.append(digits.as_str());
        proof {
            reveal_strlit("MOCK-");
        }
        self.next_broker_id = self.next_broker_id + 1;
        let ack = OrderAck {
            client_order_id: request.client_order_id.clone(),
            broker_order_id: broker_order_id.clone(),
        };
        let report = ExecutionReport {
            broker_order_id,
            client_order_id: request.client_order_id.clone(),
            symbol: request.symbol.duplicate(),
            side: request.side,
            order_type: request.order_type,
            order_quantity: request.quantity,
            filled_quantity: if fills { request.quantity } else { 0 },
            average_fill_price: if fills { Some(fill_price) } else { None },
            open: !fills,
            timestamp: now,
        };
        if fills {
            match after {
                Some(Some(p)) => self.positions.insert(request.symbol.duplicate(), p),
                Some(None) => self.remove_position(&request.symbol),
                None => {},
            }
        }
        let ghost old_reports = self.reports@;
        let ghost old_acks = self.acks@;
        self.reports.push(report);
        self.acks.push(ack.duplicate());
        proof {
            assert(report_views(self.reports@) =~= report_views(old_reports).push(report@));
            assert(self@.acks =~= old(self)@.acks.push((request.client_order_id@, ack.broker_order_id@)));
        }
        Ok(ack)
    }

    fn remove_position(&mut self, symbol: &Symbol)
        ensures
            final(self)@ == (MockView { positions: old(self)@.positions.remove(symbol@), ..old(self)@ }),
            final(self).acks@ == old(self).acks@,
            final(self).reports@ == old(self).reports@,
    {
        let mut kept: SymbolTable<(i64, Dec)> = SymbolTable::new();
        self.positions.check_items();
        let n = self.positions.len();
        let mut i: usize = 0;
        while i < n
            invariant
                n == self.positions.items().len(),
                0 <= i <= n,
                crate::symbol_map::keys_unique(self.positions.items()),
                self.positions@ == crate::symbol_map::entries_to_map(self.positions.items()),
                forall|k: Seq<char>| #[trigger] kept@.contains_key(k) <==> (k != symbol@ && exists|j: int| 0 <= j < i && #[trigger] self.positions.items()[j].0@ == k),
                forall|k: Seq<char>| #[trigger] kept@.contains_key(k) ==> kept@[k] == self.positions@[k],
            decreases n - i,
        {
            let item = self.positions.item(i);
            proof {
                crate::symbol_map::lemma_entries_at(self.positions.items(), i as int);
            }
            if !item.0.same(symbol) {
                kept.insert(item.0.duplicate(), item.1);
            }
            proof {
                assert forall|k: Seq<char>| #[trigger] kept@.contains_key(k) <==> (k != symbol@ && exists|j: int| 0 <= j < i + 1 && #[trigger] self.positions.items()[j].0@ == k) by {
                    if k != symbol@ && exists|j: int| 0 <= j < i + 1 && #[trigger] self.positions.items()[j].0@ == k {
                        let j = choose|j: int| 0 <= j < i + 1 && #[trigger] self.positions.items()[j].0@ == k;
                        if j < i {
                            assert(exists|j2: int| 0 <= j2 < i && #[trigger] self.positions.items()[j2].0@ == k);
                        }
                    }
                    if kept@.contains_key(k) && k != self.positions.items()[i as int].0@ {
                        assert(exists|j: int| 0 <= j < i && #[trigger] self.positions.items()[j].0@ == k);
                    }
                }
            }
            i = i + 1;
        }
        proof {
            let target = self.positions@.remove(symbol@);
            assert forall|k: Seq<char>| #[trigger] kept@.contains_key(k) == target.contains_key(k) by {
                if target.contains_key(k) {
                    let c = choose|j: int| 0 <= j < n && #[trigger] self.positions.items()[j].0@ == k;
                    assert(exists|j: int| 0 <= j < n && #[trigger] self.positions.items()[j].0@ == k);
                }
            }
            assert(kept@ =~= target);
        }
        self.positions = kept;
    }

    /// Request cancellation of the full remainder of an open order.
    pub fn cancel_order(&mut self, broker_order_id: &str, now: Timestamp) -> (r: Result<(), BrokerError>)
        ensures
            match report_for(old(self)@.reports, broker_order_id@) {
                None => r matches Err(BrokerError::UnknownOrder(s)) && s@ == broker_order_id@ && final(self)@ == old(self)@,
                Some((i, rep)) => if !rep.open {
                    r matches Err(BrokerError::NotOpen(s)) && s@ == broker_order_id@ && final(self)@ == old(self)@
                } else {
                    r is Ok && final(self)@ == (MockView {
                        reports: old(self)@.reports.update(i, ReportView { open: false, timestamp: now, ..rep }),
                        ..old(self)@
                    })
                },
            },
    {
        let i = match self.find_report(broker_order_id) {
            Some(i) => i,
            None => return Err(BrokerError::UnknownOrder(String::from_str(broker_order_id))),
        };
        if !self.reports[i].open {
            return Err(BrokerError::NotOpen(String::from_str(broker_order_id)));
        }
        let mut updated = copy_report(&self.reports[i]);
        updated.open = false;
        updated.timestamp = now;
        let ghost before = self.reports@;
        self.reports.set(i, updated);
        proof {
            assert(report_views(self.reports@) =~= report_views(before).update(i as int, updated@));
            assert(self@.acks =~= old(self)@.acks);
        }
        Ok(())
    }

    /// Broker-side execution state of one order.
    pub fn execution_report(&self, broker_order_id: &str) -> (r: Result<ExecutionReport, BrokerError>)
        ensures
            match report_for(self@.reports, broker_order_id@) {
                None => r matches Err(BrokerError::UnknownOrder(s)) && s@ == broker_order_id@,
                Some((_, rep)) => r matches Ok(x) && x@ == rep,
            },
    {
        match self.find_report(broker_order_id) {
            Some(i) => Ok(copy_report(&self.reports[i])),
            None => Err(BrokerError::UnknownOrder(String::from_str(broker_order_id))),
        }
    }

    /// The held positions in ticker order.
    pub closed spec fn position_items(self) -> Seq<(Symbol, (i64, Dec))> {
        self.positions.items()
    }

    /// Positions currently held at the venue, in ticker order.
    pub fn positions(&self) -> (r: Vec<Position>)
        ensures
            r@.len() == self.position_items().len(),
            r@.len() == self@.positions.dom().len(),
            forall|i: int| 0 <= i < r@.len() ==> (#[trigger] r@[i]).symbol@ == self.position_items()[i].0@
                && r@[i].quantity == self.position_items()[i].1.0 && r@[i].average_price == self.position_items()[i].1.1,
            forall|i: int| 0 <= i < r@.len() ==> self@.positions.contains_key((#[trigger] r@[i]).symbol@)
                && self@.positions[r@[i].symbol@] == (r@[i].quantity, r@[i].average_price),
            forall|i: int, j: int| 0 <= i < j < r@.len() ==> crate::types::symbol_code((#[trigger] r@[i]).symbol@) < crate::types::symbol_code((#[trigger] r@[j]).symbol@),
    {
        self.positions.check_items();
        proof {
            crate::symbol_map::lemma_unique_keys_count(self.positions.items());
        }
        let n = self.positions.len();
        let mut out: Vec<Position> = Vec::new();
        let mut i: usize = 0;
        while i < n
            invariant
                n == self.positions.items().len(),
                0 <= i <= n,
                out@.len() == i,
                forall|j: int| 0 <= j < i ==> (#[trigger] out@[j]).symbol@ == self.positions.items()[j].0@
                    && out@[j].quantity == self.positions.items()[j].1.0 && out@[j].average_price == self.positions.items()[j].1.1,
            decreases n - i,
        {
            let item = self.positions.item(i);
            out.push(Position { symbol: item.0.duplicate(), quantity: item.1.0, average_price: item.1.1 });
            i = i + 1;
        }
        proof {
            assert forall|a: int| 0 <= a < out@.len() implies self@.positions.contains_key((#[trigger] out@[a]).symbol@)
                && self@.positions[out@[a].symbol@] == (out@[a].quantity, out@[a].average_price) by {
                crate::symbol_map::lemma_entries_at(self.positions.items(), a);
            }
            assert forall|a: int, b: int| 0 <= a < b < out@.len() implies crate::types::symbol_code((#[trigger] out@[a]).symbol@) < crate::types::symbol_code((#[trigger] out@[b]).symbol@) by {
                assert(crate::types::symbol_code(self.positions.items()[a].0@) < crate::types::symbol_code(self.positions.items()[b].0@));
            }
        }
        out
    }

    /// Recent quote snapshot for one symbol, stamped `now`.
    pub fn quote(&self, symbol: &Symbol, now: Timestamp) -> (r: Result<Quote, BrokerError>)
        ensures
            self@.prices.contains_key(symbol@) ==> (r matches Ok(q) && q.symbol@ == symbol@
                && q.last_price == self@.prices[symbol@] && q.timestamp == now),
            !self@.prices.contains_key(symbol@) ==> (r matches Err(BrokerError::UnknownSymbol(s)) && s@ == symbol@),
    {
        match self.prices.get(symbol) {
            Some(p) => Ok(Quote { symbol: symbol.duplicate(), last_price: *p, timestamp: now }),
            None => Err(BrokerError::UnknownSymbol(String::from_str(symbol.as_str()))),
        }
    }
}

/// The venue position after a fill (see [`mock_position_after`]).
fn position_after(current: Option<(i64, Dec)>, side: OrderSide, quantity: i64, price: Dec) -> (r: Option<Option<(i64, Dec)>>)
    ensures
        r == mock_position_after(current, side, quantity, price),
{
    match side {
        OrderSide::Buy => match current {
            None => Some(Some((quantity, price))),
            Some((held, average)) => {
                let total = match held.checked_add(quantity) {
                    Some(t) => t,
                    None => return None,
                };
                match blended_average(held, average, quantity, price) {
                    Some(avg) => Some(Some((total, avg))),
                    None => None,
                }
            },
        },
        OrderSide::Sell => match current {
            None => Some(None),
            Some((held, average)) => {
                if held < quantity {
                    Some(Some((held, average)))
                } else {
                    match held.checked_sub(quantity) {
                        None => None,
                        Some(0) => Some(None),
                        Some(rest) => Some(Some((rest, average))),
                    }
                }
            },
        },
    }
}

} // verus!

//! Portfolio aggregate — position aggregation over fills.
//!
//! Exact decimal arithmetic; average price blends on buys and survives
//! sells. Realized P&L accrues on sells against the average price at sell
//! time. Fully-closed positions stay with quantity 0 (KIS inquire-balance
//! parity; realized P&L preserved on the entry). Positions are kept in
//! ticker order.

use vstd::prelude::*;
use crate::decimal::{
    Dec, dec_of_int, dec_sum, sum_all, decimal_checked_add, decimal_checked_mul,
    decimal_checked_sub,
};
use crate::types::{OrderSide, Price, Quantity, Symbol, is_symbol_text, symbol_code, lemma_symbol_code_injective};
use super::{DomainError, blended_average, blended_average_spec};

verus! {

#[derive(Debug, Clone)]
pub struct Fill {
    pub client_order_id: String,
    pub symbol: Symbol,
    pub side: OrderSide,
    pub quantity: Quantity,
    pub price: Price,
}

#[derive(Debug, Clone)]
pub struct PositionState {
    pub symbol: Symbol,
    pub quantity: Quantity,
    pub average_price: Price,
    pub realized_pnl: Price,
}

/// A position as plain values.
pub struct PositionView {
    pub symbol: Seq<char>,
    pub quantity: i64,
    pub average_price: Dec,
    pub realized_pnl: Dec,
}

impl View for PositionState {
    type V = PositionView;

    open spec fn view(&self) -> PositionView {
        PositionView {
            symbol: self.symbol@,
            quantity: self.quantity,
            average_price: self.average_price,
            realized_pnl: self.realized_pnl,
        }
    }
}

impl PositionState {
    pub fn duplicate(&self) -> (r: PositionState)
        ensures
            r@ == self@,
    {
        PositionState {
            symbol: self.symbol.duplicate(),
            quantity: self.quantity,
            average_price: self.average_price,
            realized_pnl: self.realized_pnl,
        }
    }
}

/// The plain values of each position, in order.
pub open spec fn position_views(s: Seq<PositionState>) -> Seq<PositionView> {
    Seq::new(s.len(), |i: int| s[i]@)
}

/// Entries in strictly increasing ticker order, every ticker six digits.
pub open spec fn entries_sorted(s: Seq<PositionView>) -> bool {
    &&& forall|i: int| 0 <= i < s.len() ==> is_symbol_text(#[trigger] s[i].symbol)
    &&& forall|i: int, j: int|
        0 <= i < j < s.len() ==> symbol_code(#[trigger] s[i].symbol) < symbol_code(
            #[trigger] s[j].symbol,
        )
}

/// The map from ticker to position that the entries hold.
pub open spec fn entries_map(s: Seq<PositionView>) -> Map<Seq<char>, PositionView> {
    Map::new(
        |k: Seq<char>| exists|i: int| 0 <= i < s.len() && #[trigger] s[i].symbol == k,
        |k: Seq<char>| s[choose|i: int| 0 <= i < s.len() && #[trigger] s[i].symbol == k],
    )
}

pub open spec fn lookup(m: Map<Seq<char>, PositionView>, k: Seq<char>) -> Option<PositionView> {
    if m.contains_key(k) {
        Some(m[k])
    } else {
        None
    }
}

/// What applying one fill does to the position it names.
pub enum FillOutcome {
    Updated(PositionView),
    /// A sell larger than the position; carries the quantity held.
    Insufficient(i64),
    Overflow,
}

pub open spec fn fill_outcome(
    current: Option<PositionView>,
    symbol: Seq<char>,
    side: OrderSide,
    quantity: i64,
    price: Dec,
) -> FillOutcome {
    match side {
        OrderSide::Buy => match current {
            None => FillOutcome::Updated(
                PositionView { symbol, quantity, average_price: price, realized_pnl: dec_of_int(0) },
            ),
            Some(c) => if c.quantity + quantity < i64::MIN || c.quantity + quantity > i64::MAX {
                FillOutcome::Overflow
            } else {
                match blended_average_spec(c.quantity as int, c.average_price, quantity as int, price) {
                    Some(avg) => FillOutcome::Updated(
                        PositionView {
                            symbol,
                            quantity: (c.quantity + quantity) as i64,
                            average_price: avg,
                            realized_pnl: c.realized_pnl,
                        },
                    ),
                    None => FillOutcome::Overflow,
                }
            },
        },
        OrderSide::Sell => match current {
            None => FillOutcome::Insufficient(0),
            Some(c) => if c.quantity < quantity {
                FillOutcome::Insufficient(c.quantity)
            } else if c.quantity - quantity < i64::MIN || c.quantity - quantity > i64::MAX {
                FillOutcome::Overflow
            } else {
                match decimal_checked_sub(price, c.average_price) {
                    Some(gain) => match decimal_checked_mul(gain, dec_of_int(quantity as int)) {
                        Some(realized) => match decimal_checked_add(c.realized_pnl, realized) {
                            Some(total) => FillOutcome::Updated(
                                PositionView {
                                    symbol,
                                    quantity: (c.quantity - quantity) as i64,
                                    average_price: c.average_price,
                                    realized_pnl: total,
                                },
                            ),
                            None => FillOutcome::Overflow,
                        },
                        None => FillOutcome::Overflow,
                    },
                    None => FillOutcome::Overflow,
                }
            },
        },
    }
}

/// Aggregate of positions; updated only through [`Portfolio::apply_fill`].
#[derive(Debug)]
pub struct Portfolio {
    positions: Vec<PositionState>,
}

impl View for Portfolio {
    type V = Map<Seq<char>, PositionView>;

    open spec fn view(&self) -> Map<Seq<char>, PositionView> {
        entries_map(self.entries())
    }
}

impl Portfolio {
    #[verifier::type_invariant]
    spec fn sorted(self) -> bool {
        entries_sorted(self.entries())
    }

    /// The positions in ticker order.
    pub closed spec fn entries(&self) -> Seq<PositionView> {
        position_views(self.positions@)
    }

    pub fn new() -> (r: Portfolio)
        ensures
            r.entries() == Seq::<PositionView>::empty(),
            r@ == Map::<Seq<char>, PositionView>::empty(),
    {
        let r = Portfolio { positions: Vec::new() };
        assert(r.entries() =~= Seq::<PositionView>::empty());
        assert(r@ =~= Map::<Seq<char>, PositionView>::empty());
        r
    }

    /// The entries are in ticker order.
    pub fn check_sorted(&self)
        ensures
            entries_sorted(self.entries()),
    {
        proof {
            use_type_invariant(self);
        }
    }

    /// Index of the first entry whose ticker is not before `symbol`.
    fn locate(&self, symbol: &Symbol) -> (r: (usize, bool))
        ensures
            r.0 <= self.entries().len(),
            forall|i: int| 0 <= i < r.0 ==> symbol_code(#[trigger] self.entries()[i].symbol) < symbol_code(symbol@),
            forall|i: int| r.0 <= i < self.entries().len() ==> symbol_code(symbol@) <= symbol_code(#[trigger] self.entries()[i].symbol),
            r.1 == (r.0 < self.entries().len() && self.entries()[r.0 as int].symbol == symbol@),
            r.1 == self@.contains_key(symbol@),
            r.1 ==> self@[symbol@] == self.entries()[r.0 as int],
    {
        proof {
            use_type_invariant(self);
        }
        symbol.check_text();
        let n = self.positions.len();
        let code = symbol.code();
        let mut i: usize = 0;
        while i < n
            invariant
                n == self.positions.len(),
                n == self.entries().len(),
                0 <= i <= n,
                code == symbol_code(symbol@),
                entries_sorted(self.entries()),
                forall|j: int| 0 <= j < i ==> symbol_code(#[trigger] self.entries()[j].symbol) < code,
            ensures
                0 <= i <= n,
                forall|j: int| 0 <= j < i ==> symbol_code(#[trigger] self.entries()[j].symbol) < code,
                i < n ==> code <= symbol_code(self.entries()[i as int].symbol),
            decreases n - i,
        {
            if self.positions[i].symbol.code() >= code {
                break;
            }
            i = i + 1;
        }
        assert(i < n ==> code <= symbol_code(self.entries()[i as int].symbol));
        let found = i < n && self.positions[i].symbol.same(symbol);
        proof {
            let s = self.entries();
            assert forall|j: int| i <= j < s.len() implies code <= symbol_code(#[trigger] s[j].symbol) by {
                if j > i {
                    assert(symbol_code(s[i as int].symbol) < symbol_code(s[j].symbol));
                }
            }
            if found {
                assert(s[i as int].symbol == symbol@);
                assert(self@.contains_key(symbol@));
                let c = choose|k: int| 0 <= k < s.len() && #[trigger] s[k].symbol == symbol@;
                if c != i {
                    if c < i {
                        assert(symbol_code(s[c].symbol) < symbol_code(s[i as int].symbol));
                    } else {
                        assert(symbol_code(s[i as int].symbol) < symbol_code(s[c].symbol));
                    }
                }
            } else {
                if self@.contains_key(symbol@) {
                    let c = choose|k: int| 0 <= k < s.len() && #[trigger] s[k].symbol == symbol@;
                    assert(s[c].symbol == symbol@);
                    if c < i {
                        assert(symbol_code(s[c].symbol) < code);
                    } else if c == i {
                        assert(false);
                    } else {
                        assert(i < s.len());
                        assert(code <= symbol_code(s[i as int].symbol));
                        assert(symbol_code(s[i as int].symbol) < symbol_code(s[c].symbol));
                        if symbol_code(s[i as int].symbol) == code {
                            lemma_symbol_code_injective(s[i as int].symbol, symbol@);
                        }
                    }
                }
            }
        }
        (i, found)
    }

    pub fn position(&self, symbol: &Symbol) -> (r: Option<&PositionState>)
        ensures
            match r {
                Some(p) => self@.contains_key(symbol@) && p@ == self@[symbol@],
                None => !self@.contains_key(symbol@),
            },
    {
        let (i, found) = self.locate(symbol);
        if found {
            Some(&self.positions[i])
        } else {
            None
        }
    }

    /// Copies of all positions, in ticker order.
    pub fn positions(&self) -> (r: Vec<PositionState>)
        ensures
            position_views(r@) == self.entries(),
    {
        let mut out: Vec<PositionState> = Vec::new();
        let mut i: usize = 0;
        while i < self.positions.len()
            invariant
                0 <= i <= self.positions.len(),
                position_views(out@) == self.entries().subrange(0, i as int),
                out@.len() == i,
                self.entries().len() == self.positions@.len(),
            decreases self.positions.len() - i,
        {
            let ghost before = out@;
            let item = self.positions[i].duplicate();
            assert(item@ == self.entries()[i as int]);
            out.push(item);
            assert(out@ == before.push(item));
            assert(position_views(before) == self.entries().subrange(0, i as int));
            assert forall|k: int| 0 <= k < i implies #[trigger] out@[k]@ == self.entries()[k] by {
                assert(out@[k] == before[k]);
                assert(position_views(before)[k] == before[k]@);
            }
            i = i + 1;
            assert(position_views(out@) =~= self.entries().subrange(0, i as int));
        }
        assert(self.entries().subrange(0, i as int) =~= self.entries());
        out
    }

    /// Sum of realized P&L over all positions in ticker order; `None` where
    /// the sum overflows.
    pub fn total_realized_pnl(&self) -> (r: Option<Price>)
        ensures
            r == dec_sum(self.entries().map_values(|p: PositionView| p.realized_pnl)),
    {
        let mut values: Vec<Dec> = Vec::new();
        let mut i: usize = 0;
        while i < self.positions.len()
            invariant
                0 <= i <= self.positions.len(),
                values@ == self.entries().subrange(0, i as int).map_values(|p: PositionView| p.realized_pnl),
            decreases self.positions.len() - i,
        {
            values.push(self.positions[i].realized_pnl);
            i = i + 1;
            assert(values@ =~= self.entries().subrange(0, i as int).map_values(|p: PositionView| p.realized_pnl));
        }
        assert(self.entries().subrange(0, i as int) =~= self.entries());
        sum_all(&values)
    }

    fn copy_positions(&self) -> (r: Vec<PositionState>)
        ensures
            position_views(r@) == self.entries(),
    {
        self.positions()
    }

    /// Return a new portfolio with the fill applied (self stays untouched).
    pub fn apply_fill(&self, fill: Fill) -> (r: Result<Portfolio, DomainError>)
        ensures
            match fill_outcome(lookup(self@, fill.symbol@), fill.symbol@, fill.side, fill.quantity, fill.price) {
                FillOutcome::Updated(u) => r matches Ok(p) && p@ == self@.insert(fill.symbol@, u),
                FillOutcome::Insufficient(held) => r matches Err(
                    DomainError::InsufficientPosition { symbol, requested, held: h },
                ) && symbol@ == fill.symbol@ && requested == fill.quantity && h == held,
                FillOutcome::Overflow => r == Err::<Portfolio, DomainError>(DomainError::ArithmeticOverflow),
            },
    {
        proof {
            use_type_invariant(self);
        }
        fill.symbol.check_text();
        let (idx, found) = self.locate(&fill.symbol);
        let updated: PositionState = match fill.side {
            OrderSide::Buy => {
                if !found {
                    PositionState {
                        symbol: fill.symbol.duplicate(),
                        quantity: fill.quantity,
                        average_price: fill.price,
                        realized_pnl: Dec::zero(),
                    }
                } else {
                    let current = &self.positions[idx];
                    let quantity = match current.quantity.checked_add(fill.quantity) {
                        Some(q) => q,
                        None => return Err(DomainError::ArithmeticOverflow),
                    };
                    let average = match blended_average(
                        current.quantity,
                        current.average_price,
                        fill.quantity,
                        fill.price,
                    ) {
                        Some(a) => a,
                        None => return Err(DomainError::ArithmeticOverflow),
                    };
                    PositionState {
                        symbol: fill.symbol.duplicate(),
                        quantity,
                        average_price: average,
                        realized_pnl: current.realized_pnl,
                    }
                }
            },
            OrderSide::Sell => {
                if !found {
                    return Err(
                        DomainError::InsufficientPosition {
                            symbol: String::from_str(fill.symbol.as_str()),
                            requested: fill.quantity,
                            held: 0,
                        },
                    );
                }
                let current = &self.positions[idx];
                if current.quantity < fill.quantity {
                    return Err(
                        DomainError::InsufficientPosition {
                            symbol: String::from_str(fill.symbol.as_str()),
                            requested: fill.quantity,
                            held: current.quantity,
                        },
                    );
                }
                let quantity = match current.quantity.checked_sub(fill.quantity) {
                    Some(q) => q,
                    None => return Err(DomainError::ArithmeticOverflow),
                };
                let gain = match fill.price.checked_sub(&current.average_price) {
                    Some(g) => g,
                    None => return Err(DomainError::ArithmeticOverflow),
                };
                let realized = match gain.checked_mul(&Dec::from_i64(fill.quantity)) {
                    Some(v) => v,
                    None => return Err(DomainError::ArithmeticOverflow),
                };
                let total = match current.realized_pnl.checked_add(&realized) {
                    Some(v) => v,
                    None => return Err(DomainError::ArithmeticOverflow),
                };
                PositionState {
                    symbol: fill.symbol.duplicate(),
                    quantity,
                    average_price: current.average_price,
                    realized_pnl: total,
                }
            },
        };
        let ghost u = updated@;
        let ghost old_entries = self.entries();
        let mut next = self.copy_positions();
        if found {
            next.set(idx, updated);
        } else {
            next.insert(idx, updated);
        }
        proof {
            let s = position_views(next@);
            if found {
                assert(s =~= old_entries.update(idx as int, u));
            } else {
                assert(s =~= old_entries.insert(idx as int, u));
            }
            assert(entries_sorted(s)) by {
                assert forall|i: int, j: int| 0 <= i < j < s.len() implies symbol_code(
                    #[trigger] s[i].symbol,
                ) < symbol_code(#[trigger] s[j].symbol) by {
                    if found {
                        if i == idx {
                            assert(symbol_code(old_entries[i].symbol) < symbol_code(old_entries[j].symbol));
                        } else if j == idx {
                            assert(symbol_code(old_entries[i].symbol) < symbol_code(old_entries[j].symbol));
                        }
                    } else {
                        if i < idx && j > idx {
                            assert(symbol_code(old_entries[i].symbol) < symbol_code(old_entries[j - 1].symbol));
                        } else if i > idx {
                            assert(symbol_code(old_entries[i - 1].symbol) < symbol_code(old_entries[j - 1].symbol));
                        } else if j < idx {
                            assert(symbol_code(old_entries[i].symbol) < symbol_code(old_entries[j].symbol));
                        } else if i == idx {
                            assert(symbol_code(fill.symbol@) <= symbol_code(old_entries[j - 1].symbol));
                            if symbol_code(fill.symbol@) == symbol_code(old_entries[j - 1].symbol) {
                                lemma_symbol_code_injective(fill.symbol@, old_entries[j - 1].symbol);
                                if j - 1 > idx {
                                    assert(symbol_code(old_entries[idx as int].symbol) < symbol_code(old_entries[j - 1].symbol));
                                }
                            }
                        }
                    }
                }
            }
        }
        let result = Portfolio { positions: next };
        proof {
            let s = result.entries();
            if found {
                assert(s =~= old_entries.update(idx as int, u));
            } else {
                assert(s =~= old_entries.insert(idx as int, u));
            }
            assert(result@ =~= self@.insert(fill.symbol@, u)) by {
                assert forall|k: Seq<char>| #[trigger] result@.contains_key(k) == self@.insert(fill.symbol@, u).contains_key(k) by {
                    if k == fill.symbol@ {
                        assert(s[idx as int].symbol == k);
                    } else if self@.contains_key(k) {
                        let c = choose|m: int| 0 <= m < old_entries.len() && #[trigger] old_entries[m].symbol == k;
                        if found || c < idx {
                            assert(s[c].symbol == k);
                        } else {
                            assert(s[c + 1].symbol == k);
                        }
                    } else if result@.contains_key(k) {
                        let c = choose|m: int| 0 <= m < s.len() && #[trigger] s[m].symbol == k;
                        if found || c < idx {
                            assert(old_entries[c].symbol == k);
                        } else if c > idx {
                            assert(old_entries[c - 1].symbol == k);
                        }
                    }
                }
                assert forall|k: Seq<char>| #[trigger] result@.contains_key(k) implies result@[k] == self@.insert(fill.symbol@, u)[k] by {
                    let c = choose|m: int| 0 <= m < s.len() && #[trigger] s[m].symbol == k;
                    if k == fill.symbol@ {
                        if c != idx {
                            if c < idx {
                                assert(symbol_code(s[c].symbol) < symbol_code(s[idx as int].symbol));
                            } else {
                                assert(symbol_code(s[idx as int].symbol) < symbol_code(s[c].symbol));
                            }
                        }
                    } else {
                        let d = choose|m: int| 0 <= m < old_entries.len() && #[trigger] old_entries[m].symbol == k;
                        let e = if found || d < idx { d } else { d + 1 };
                        assert(s[e].symbol == k);
                        if c != e {
                            if c < e {
                                assert(symbol_code(s[c].symbol) < symbol_code(s[e].symbol));
                            } else {
                                assert(symbol_code(s[e].symbol) < symbol_code(s[c].symbol));
                            }
                        }
                    }
                }
            }
        }
        Ok(result)
    }
}

/// A sell keeps the average price, lowers the quantity by what was sold
/// and books (price − average) × quantity into realized profit; a sell
/// beyond the holding (or of nothing held) is refused with what is held.
pub proof fn sells_keep_average_price(current: Option<PositionView>, symbol: Seq<char>, quantity: i64, price: Dec)
    ensures
        match fill_outcome(current, symbol, OrderSide::Sell, quantity, price) {
            FillOutcome::Updated(u) => match current {
                Some(c) => u.average_price == c.average_price && u.quantity == c.quantity - quantity && u.symbol == symbol
                    && match decimal_checked_sub(price, c.average_price) {
                        Some(gain) => match decimal_checked_mul(gain, dec_of_int(quantity as int)) {
                            Some(booked) => decimal_checked_add(c.realized_pnl, booked) == Some(u.realized_pnl),
                            None => false,
                        },
                        None => false,
                    },
                None => false,
            },
            FillOutcome::Insufficient(held) => match current {
                Some(c) => held == c.quantity && c.quantity < quantity,
                None => held == 0,
            },
            FillOutcome::Overflow => true,
        },
{
}

/// A buy opens a position at the fill price, or blends the average of an
/// existing one weighted by quantity, keeping its realized profit.
pub proof fn buys_blend_average(current: Option<PositionView>, symbol: Seq<char>, quantity: i64, price: Dec)
    ensures
        match fill_outcome(current, symbol, OrderSide::Buy, quantity, price) {
            FillOutcome::Updated(u) => match current {
                None => u.quantity == quantity && u.average_price == price && u.realized_pnl == dec_of_int(0),
                Some(c) => u.quantity == c.quantity + quantity && u.realized_pnl == c.realized_pnl
                    && blended_average_spec(c.quantity as int, c.average_price, quantity as int, price) == Some(u.average_price),
            },
            FillOutcome::Insufficient(_) => false,
            FillOutcome::Overflow => current is Some,
        },
{
}

} // verus!

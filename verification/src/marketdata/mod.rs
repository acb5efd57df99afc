//! Market data boundary — bars as plain values, independent of any venue.
//!
//! A venue implements retrieval (in the application) and hands plain `Bar`
//! values to the storage layer; swapping or cross-checking sources is an
//! implementation change at that boundary only.

pub mod aggregator;

use vstd::prelude::*;
use crate::decimal::Dec;
use crate::types::{Price, Symbol, Timestamp};

verus! {

/// Bar resolution; the string form is what the candle store keeps in its
/// timeframe column.
#[derive(Debug, Clone, Copy, PartialEq, Eq, Structural)]
pub enum Timeframe {
    Day,
}

impl Timeframe {
    pub fn as_str(self) -> (r: &'static str)
        ensures
            r@ == "day"@,
    {
        proof {
            reveal_strlit("day");
        }
        match self {
            Timeframe::Day => "day",
        }
    }
}

/// One completed OHLCV bar. Incomplete (in-progress) bars never travel
/// through this type — a source emits a bar only once its period has closed.
#[derive(Debug)]
pub struct Bar {
    pub symbol: Symbol,
    pub timeframe: Timeframe,
    /// Period close instant (UTC).
    pub timestamp: Timestamp,
    pub open: Price,
    pub high: Price,
    pub low: Price,
    pub close: Price,
    pub volume: i64,
}

impl Bar {
    /// The same bar, field for field.
    pub fn duplicate(&self) -> (r: Bar)
        ensures
            same_bar(r, *self),
    {
        Bar {
            symbol: self.symbol.duplicate(),
            timeframe: self.timeframe,
            timestamp: self.timestamp,
            open: self.open,
            high: self.high,
            low: self.low,
            close: self.close,
            volume: self.volume,
        }
    }
}

/// Two bars hold the same values.
pub open spec fn same_bar(a: Bar, b: Bar) -> bool {
    &&& a.symbol@ == b.symbol@
    &&& a.timeframe == b.timeframe
    &&& a.timestamp == b.timestamp
    &&& a.open == b.open
    &&& a.high == b.high
    &&& a.low == b.low
    &&& a.close == b.close
    &&& a.volume == b.volume
}

#[derive(Debug, Clone)]
pub enum MarketDataError {
    Source(String),
}

/// A daily bar (tests and seeding).
pub fn bar(symbol: &Symbol, timestamp: Timestamp, open: Dec, high: Dec, low: Dec, close: Dec, volume: i64) -> (r: Bar)
    ensures
        r.symbol@ == symbol@,
        r.timeframe == Timeframe::Day,
        r.timestamp == timestamp,
        r.open == open && r.high == high && r.low == low && r.close == close,
        r.volume == volume,
{
    Bar { symbol: symbol.duplicate(), timeframe: Timeframe::Day, timestamp, open, high, low, close, volume }
}

} // verus!

//! Bounded past-closes window for indicator strategies.
//!
//! Strategies receive only completed bars through this window; the current
//! live quote rides separately in the snapshot's quotes. Look-ahead is
//! impossible by construction: a snapshot captured at time t contains only
//! the values pushed before t, and later pushes can never mutate an
//! already-produced snapshot.

use vstd::prelude::*;
use crate::decimal::{Dec, dec_of_int, dec_sum, decimal_checked_div, sum_all};
use crate::symbol_map::SymbolMap;
use crate::types::{Price, Symbol};

verus! {

/// The newest `cap` values of `s` (all of them when there are fewer).
pub open spec fn keep_last<T>(s: Seq<T>, cap: nat) -> Seq<T> {
    if s.len() > cap {
        s.skip(s.len() - cap)
    } else {
        s
    }
}

/// The window never holds more than its capacity, and what it holds is
/// the newest values in their order.
pub proof fn window_is_bounded<T>(s: Seq<T>, cap: nat)
    ensures
        keep_last(s, cap).len() <= cap,
        keep_last(s, cap).len() == (if s.len() > cap { cap } else { s.len() }),
        forall|i: int| 0 <= i < keep_last(s, cap).len() ==>
            #[trigger] keep_last(s, cap)[i] == s[s.len() - keep_last(s, cap).len() + i],
{
}

/// Per-symbol ring of the most recent `capacity` closes.
pub struct HistoryWindow {
    capacity: usize,
    inner: SymbolMap<Vec<Price>>,
}

impl View for HistoryWindow {
    type V = Map<Seq<char>, Seq<Dec>>;

    closed spec fn view(&self) -> Map<Seq<char>, Seq<Dec>> {
        self.inner@.map_values(|v: Vec<Dec>| v@)
    }
}

impl HistoryWindow {
    #[verifier::type_invariant]
    spec fn positive(self) -> bool {
        self.capacity > 0
    }

    pub closed spec fn cap(self) -> nat {
        self.capacity as nat
    }

    pub fn new(capacity: usize) -> (r: HistoryWindow)
        requires
            capacity > 0,
        ensures
            r.cap() == capacity,
            r@ == Map::<Seq<char>, Seq<Dec>>::empty(),
    {
        let r = HistoryWindow { capacity, inner: SymbolMap::new() };
        assert(r@ =~= Map::<Seq<char>, Seq<Dec>>::empty());
        r
    }

    pub fn capacity(&self) -> (r: usize)
        ensures
            r == self.cap(),
            r > 0,
    {
        proof {
            use_type_invariant(self);
        }
        self.capacity
    }

    /// Record one completed bar close; keeps the newest `capacity` values.
    pub fn push(&mut self, symbol: &Symbol, close: Price)
        ensures
            final(self).cap() == old(self).cap(),
            final(self)@ == old(self)@.insert(
                symbol@,
                keep_last(
                    (if old(self)@.contains_key(symbol@) {
                        old(self)@[symbol@]
                    } else {
                        Seq::<Dec>::empty()
                    }).push(close),
                    old(self).cap(),
                ),
            ),
    {
        proof {
            use_type_invariant(&*self);
        }
        let mut queue: Vec<Dec> = match self.inner.get(symbol) {
            Some(existing) => crate::decimal::copy_all(existing),
            None => Vec::new(),
        };
        queue.push(close);
        let kept: Vec<Dec> = if queue.len() > self.capacity {
            let start = queue.len() - self.capacity;
            let mut tail: Vec<Dec> = Vec::new();
            let mut i: usize = start;
            while i < queue.len()
                invariant
                    start <= i <= queue@.len(),
                    tail@ == queue@.subrange(start as int, i as int),
                decreases queue.len() - i,
            {
                tail.push(queue[i]);
                i = i + 1;
            }
            tail
        } else {
            queue
        };
        let ghost before = self.inner@;
        let mut inner: SymbolMap<Vec<Price>> = SymbolMap::new();
        std::mem::swap(&mut inner, &mut self.inner);
        inner.insert(symbol.duplicate(), kept);
        self.inner = inner;
        proof {
            assert(self@ =~= old(self)@.insert(
                symbol@,
                keep_last(
                    (if old(self)@.contains_key(symbol@) {
                        old(self)@[symbol@]
                    } else {
                        Seq::<Dec>::empty()
                    }).push(close),
                    old(self).cap(),
                ),
            ));
        }
    }

    /// Copy the window (oldest first) for snapshot assembly, one entry per
    /// symbol.
    pub fn snapshot(&self) -> (r: Vec<(Symbol, Vec<Price>)>)
        ensures
            forall|i: int, j: int| 0 <= i < j < r@.len() ==> #[trigger] r@[i].0@ != #[trigger] r@[j].0@,
            forall|i: int| 0 <= i < r@.len() ==> self@.contains_key(#[trigger] r@[i].0@) && self@[r@[i].0@] == r@[i].1@,
            forall|k: Seq<char>| self@.contains_key(k) ==> exists|i: int| 0 <= i < r@.len() && #[trigger] r@[i].0@ == k,
    {
        self.inner.check_items();
        let n = self.inner.len();
        let mut out: Vec<(Symbol, Vec<Price>)> = Vec::new();
        let mut i: usize = 0;
        while i < n
            invariant
                n == self.inner.items().len(),
                0 <= i <= n,
                out@.len() == i,
                crate::symbol_map::keys_unique(self.inner.items()),
                self.inner@ == crate::symbol_map::entries_to_map(self.inner.items()),
                forall|j: int| 0 <= j < i ==> #[trigger] out@[j].0@ == self.inner.items()[j].0@
                    && out@[j].1@ == self.inner.items()[j].1@,
            decreases n - i,
        {
            let item = self.inner.item(i);
            out.push((item.0.duplicate(), crate::decimal::copy_all(&item.1)));
            i = i + 1;
        }
        proof {
            let s = self.inner.items();
            assert forall|a: int, b: int| 0 <= a < b < out@.len() implies #[trigger] out@[a].0@ != #[trigger] out@[b].0@ by {
                assert(s[a].0@ != s[b].0@);
            }
            assert forall|a: int| 0 <= a < out@.len() implies self@.contains_key(#[trigger] out@[a].0@) && self@[out@[a].0@] == out@[a].1@ by {
                crate::symbol_map::lemma_entries_at(s, a);
            }
            assert forall|k: Seq<char>| self@.contains_key(k) implies exists|a: int| 0 <= a < out@.len() && #[trigger] out@[a].0@ == k by {
                let c = choose|a: int| 0 <= a < s.len() && #[trigger] s[a].0@ == k;
                assert(out@[c].0@ == k);
            }
        }
        out
    }

    /// Number of closes held for a symbol.
    pub fn len(&self, symbol: &Symbol) -> (r: usize)
        ensures
            r == (if self@.contains_key(symbol@) { self@[symbol@].len() } else { 0 }),
    {
        match self.inner.get(symbol) {
            Some(queue) => queue.len(),
            None => 0,
        }
    }
}

/// Simple moving average over the last `period` closes, exact; `None` when
/// `period` is zero, there are fewer closes, or the sum overflows.
pub open spec fn sma_spec(closes: Seq<Dec>, period: nat) -> Option<Dec> {
    if period == 0 || closes.len() < period {
        None
    } else {
        match dec_sum(closes.skip(closes.len() - period)) {
            Some(total) => decimal_checked_div(total, dec_of_int(period as int)),
            None => None,
        }
    }
}

/// Simple moving average over the tail of a close series (exact decimal).
pub fn sma(closes: &Vec<Price>, period: usize) -> (r: Option<Price>)
    ensures
        r == sma_spec(closes@, period as nat),
{
    if period == 0 || closes.len() < period {
        return None;
    }
    let start = closes.len() - period;
    let mut tail: Vec<Dec> = Vec::new();
    let mut i: usize = start;
    while i < closes.len()
        invariant
            start <= i <= closes@.len(),
            tail@ == closes@.subrange(start as int, i as int),
        decreases closes.len() - i,
    {
        tail.push(closes[i]);
        i = i + 1;
    }
    assert(tail@ =~= closes@.skip(start as int));
    match sum_all(&tail) {
        Some(total) => total.checked_div(&Dec::from_u64(period as u64)),
        None => None,
    }
}

} // verus!

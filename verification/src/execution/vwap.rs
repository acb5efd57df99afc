//! VWAP execution algorithm — splits a large parent order into child slices
//! that track the volume-weighted average price.
//!
//! The scheduler is deterministic and pure: given the realized fills, it
//! returns the next child slice. Risk enforcement stays upstream.

use vstd::prelude::*;
use crate::decimal::{Dec, dec_of_int, decimal_checked_add, decimal_checked_div, decimal_checked_mul};

verus! {

/// Even-volume VWAP slicing over `slices` equal buckets.
pub struct VwapSchedule {
    total_quantity: i64,
    slices: i64,
    filled: i64,
}

#[derive(Debug)]
pub enum VwapError {
    Indivisible { quantity: i64, slices: i64 },
    NonPositiveSlices(i64),
}

/// `|n|` as an unsigned number.
fn magnitude(n: i64) -> (r: u64)
    ensures
        r == (if n < 0 { -n } else { n as int }),
{
    if n < 0 {
        if n == i64::MIN {
            9223372036854775808u64
        } else {
            (-n) as u64
        }
    } else {
        n as u64
    }
}

proof fn lemma_divides_magnitude(total: int, d: int)
    requires
        d > 0,
    ensures
        (total % d == 0) <==> ((if total < 0 { -total } else { total }) % d == 0),
{
    let m = if total < 0 { -total } else { total };
    if total < 0 {
        if total % d == 0 {
            vstd::arithmetic::div_mod::lemma_fundamental_div_mod(total, d);
            assert(m == (-(total / d)) * d + 0) by (nonlinear_arith)
                requires
                    total == d * (total / d) + 0,
                    m == -total,
            ;
            vstd::arithmetic::div_mod::lemma_fundamental_div_mod_converse(m, d, -(total / d), 0);
        }
        if m % d == 0 {
            vstd::arithmetic::div_mod::lemma_fundamental_div_mod(m, d);
            assert(total == (-(m / d)) * d + 0) by (nonlinear_arith)
                requires
                    m == d * (m / d) + 0,
                    m == -total,
            ;
            vstd::arithmetic::div_mod::lemma_fundamental_div_mod_converse(total, d, -(m / d), 0);
        }
    }
}

/// `total / slices` when `slices` is positive and divides `total` exactly.
fn exact_quotient(total: i64, slices: i64) -> (r: Option<i64>)
    requires
        slices > 0,
    ensures
        r is Some <==> total % slices == 0,
        r matches Some(q) ==> q * slices == total,
{
    let m = magnitude(total);
    let d = slices as u64;
    proof {
        lemma_divides_magnitude(total as int, slices as int);
    }
    if m % d != 0 {
        return None;
    }
    let q = m / d;
    proof {
        vstd::arithmetic::div_mod::lemma_fundamental_div_mod(m as int, d as int);
        assert(q * d == m) by (nonlinear_arith)
            requires
                m == d * q + 0,
        ;
        assert(q <= m) by (nonlinear_arith)
            requires
                q * d == m,
                d >= 1,
                q >= 0,
        ;
    }
    if total < 0 {
        assert(q <= 9223372036854775808u64);
        if q == 9223372036854775808u64 {
            proof {
                assert(d == 1) by (nonlinear_arith)
                    requires
                        q * d == m,
                        q == 9223372036854775808u64,
                        m <= 9223372036854775808u64,
                        d >= 1,
                ;
            }
            Some(i64::MIN)
        } else {
            let qi = q as i64;
            proof {
                assert(-qi * slices == total) by (nonlinear_arith)
                    requires
                        q * d == m,
                        qi == q,
                        d == slices,
                        m == -total,
                ;
            }
            Some(-qi)
        }
    } else {
        proof {
            assert(q * slices == total) by (nonlinear_arith)
                requires
                    q * d == m,
                    d == slices,
                    m == total,
            ;
        }
        Some(q as i64)
    }
}

impl VwapSchedule {
    #[verifier::type_invariant]
    spec fn even(self) -> bool {
        self.slices > 0 && self.total_quantity % self.slices == 0
    }

    pub closed spec fn total(self) -> int {
        self.total_quantity as int
    }

    pub closed spec fn slice_count(self) -> int {
        self.slices as int
    }

    pub closed spec fn filled_so_far(self) -> int {
        self.filled as int
    }

    pub fn new(total_quantity: i64, slices: i64) -> (r: Result<VwapSchedule, VwapError>)
        ensures
            slices <= 0 ==> (r matches Err(VwapError::NonPositiveSlices(s)) && s == slices),
            slices > 0 && total_quantity % slices != 0 ==> (r matches Err(
                VwapError::Indivisible { quantity, slices: s },
            ) && quantity == total_quantity && s == slices),
            slices > 0 && total_quantity % slices == 0 ==> (r matches Ok(v) && v.total() == total_quantity
                && v.slice_count() == slices && v.filled_so_far() == 0),
    {
        if slices <= 0 {
            return Err(VwapError::NonPositiveSlices(slices));
        }
        let slice_size = exact_quotient(total_quantity, slices);
        if slice_size.is_none() {
            return Err(VwapError::Indivisible { quantity: total_quantity, slices });
        }
        Ok(VwapSchedule { total_quantity, slices, filled: 0 })
    }

    /// Quantity for the next child slice (zero when complete).
    pub fn next_slice(&self) -> (r: i64)
        ensures
            self.filled_so_far() >= self.total() ==> r == 0,
            self.filled_so_far() < self.total() ==> r * self.slice_count() == self.total(),
    {
        proof {
            use_type_invariant(self);
        }
        if self.filled >= self.total_quantity {
            0
        } else {
            match exact_quotient(self.total_quantity, self.slices) {
                Some(q) => q,
                None => 0,
            }
        }
    }

    /// Record a child fill; saturates at the parent total.
    pub fn record_fill(&mut self, quantity: i64)
        requires
            i64::MIN <= old(self).filled_so_far() + quantity <= i64::MAX,
        ensures
            final(self).total() == old(self).total(),
            final(self).slice_count() == old(self).slice_count(),
            final(self).filled_so_far() == (if old(self).filled_so_far() + quantity <= old(self).total() {
                old(self).filled_so_far() + quantity
            } else {
                old(self).total()
            }),
            final(self).filled_so_far() <= final(self).total(),
    {
        proof {
            use_type_invariant(&*self);
        }
        let sum = self.filled + quantity;
        self.filled = if sum <= self.total_quantity {
            sum
        } else {
            self.total_quantity
        };
    }

    /// Shares filled so far.
    pub fn filled(&self) -> (r: i64)
        ensures
            r == self.filled_so_far(),
    {
        self.filled
    }

    /// Realized fill / total, exact decimal; `None` when the total is zero.
    pub fn progress(&self) -> (r: Option<Dec>)
        ensures
            r == decimal_checked_div(dec_of_int(self.filled_so_far()), dec_of_int(self.total())),
            self.total() == 0 ==> r is None,
    {
        Dec::from_i64(self.filled).checked_div(&Dec::from_i64(self.total_quantity))
    }

    pub fn complete(&self) -> (r: bool)
        ensures
            r == (self.filled_so_far() >= self.total()),
    {
        self.filled >= self.total_quantity
    }
}

/// Total volume of the bars.
pub open spec fn volume_sum(bars: Seq<(Dec, i64)>) -> int
    decreases bars.len(),
{
    if bars.len() == 0 {
        0
    } else {
        volume_sum(bars.drop_last()) + bars.last().1
    }
}

/// Every running volume total stays within `i64`.
pub open spec fn volumes_fit(bars: Seq<(Dec, i64)>) -> bool {
    forall|k: int| 0 <= k <= bars.len() ==> i64::MIN <= #[trigger] volume_sum(bars.take(k)) <= i64::MAX
}

/// Sum of `price * volume` over the bars, left to right from zero, as
/// `rust_decimal` computes it; `None` where a step overflows.
pub open spec fn notional_sum(bars: Seq<(Dec, i64)>) -> Option<Dec>
    decreases bars.len(),
{
    if bars.len() == 0 {
        Some(dec_of_int(0))
    } else {
        match notional_sum(bars.drop_last()) {
            Some(acc) => match decimal_checked_mul(bars.last().0, dec_of_int(bars.last().1 as int)) {
                Some(p) => decimal_checked_add(acc, p),
                None => None,
            },
            None => None,
        }
    }
}

/// VWAP over (price, volume) bars: `None` when the total volume is not
/// positive (or the exact arithmetic overflows).
pub open spec fn vwap_spec(bars: Seq<(Dec, i64)>) -> Option<Dec> {
    if volume_sum(bars) <= 0 {
        None
    } else {
        match notional_sum(bars) {
            Some(n) => decimal_checked_div(n, dec_of_int(volume_sum(bars))),
            None => None,
        }
    }
}

/// VWAP price over (price, volume) bars — exact decimal.
pub fn vwap(bars: &Vec<(Dec, i64)>) -> (r: Option<Dec>)
    requires
        volumes_fit(bars@),
    ensures
        r == vwap_spec(bars@),
{
    let mut total_volume: i64 = 0;
    let mut i: usize = 0;
    while i < bars.len()
        invariant
            0 <= i <= bars.len(),
            volumes_fit(bars@),
            total_volume == volume_sum(bars@.take(i as int)),
        decreases bars.len() - i,
    {
        assert(bars@.take(i + 1).drop_last() =~= bars@.take(i as int));
        assert(i64::MIN <= volume_sum(bars@.take(i + 1)) <= i64::MAX);
        total_volume = total_volume + bars[i].1;
        i = i + 1;
    }
    assert(bars@.take(bars.len() as int) =~= bars@);
    if total_volume <= 0 {
        return None;
    }
    let mut notional = Dec::zero();
    let mut j: usize = 0;
    while j < bars.len()
        invariant
            0 <= j <= bars.len(),
            notional_sum(bars@.take(j as int)) == Some(notional),
        decreases bars.len() - j,
    {
        assert(bars@.take(j + 1).drop_last() =~= bars@.take(j as int));
        let (price, volume) = bars[j];
        let step = match price.checked_mul(&Dec::from_i64(volume)) {
            Some(v) => v,
            None => {
                proof {
                    lemma_notional_none_extends(bars@, j + 1);
                }
                return None;
            },
        };
        notional = match notional.checked_add(&step) {
            Some(v) => v,
            None => {
                proof {
                    lemma_notional_none_extends(bars@, j + 1);
                }
                return None;
            },
        };
        j = j + 1;
    }
    notional.checked_div(&Dec::from_i64(total_volume))
}

/// Once a prefix's notional overflows, every longer prefix does too.
pub proof fn lemma_notional_none_extends(bars: Seq<(Dec, i64)>, k: int)
    requires
        0 <= k <= bars.len(),
        notional_sum(bars.take(k)) is None,
    ensures
        notional_sum(bars) is None,
    decreases bars.len() - k,
{
    if k < bars.len() {
        assert(bars.take(k + 1).drop_last() =~= bars.take(k));
        lemma_notional_none_extends(bars, k + 1);
    } else {
        assert(bars.take(k) =~= bars);
    }
}

} // verus!

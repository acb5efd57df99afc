//! Money boundary conversion: exact decimal KRW <-> integer in 1e-4 KRW
//! units (KIS's own price precision). Round-half-even below 1e-4.

use vstd::prelude::*;
use crate::decimal::{Dec, dec_of_int, decimal_checked_div, decimal_checked_mul, decimal_round_dp};

verus! {

/// `round_half_even(value * 10_000)` as an integer; `None` where the
/// product overflows or the integer does not fit in `i64`.
pub open spec fn money_units(value: Dec) -> Option<i64> {
    match decimal_checked_mul(value, dec_of_int(10_000)) {
        None => None,
        Some(scaled) => {
            let rounded = decimal_round_dp(scaled, 0);
            if i64::MIN <= rounded.mant() <= i64::MAX {
                Some(rounded.mant() as i64)
            } else {
                None
            }
        },
    }
}

pub fn money_to_int(value: Dec) -> (r: Option<i64>)
    ensures
        r == money_units(value),
{
    let scaled = match value.checked_mul(&Dec::from_i64(10_000)) {
        Some(s) => s,
        None => return None,
    };
    let rounded = scaled.round_dp(0);
    let m = rounded.mantissa();
    if i64::MIN as i128 <= m && m <= i64::MAX as i128 {
        Some(m as i64)
    } else {
        None
    }
}

/// `value / 10_000` as an exact decimal.
pub fn int_to_money(value: i64) -> (r: Option<Dec>)
    ensures
        r == decimal_checked_div(dec_of_int(value as int), dec_of_int(10_000)),
{
    Dec::from_i64(value).checked_div(&Dec::from_i64(10_000))
}

} // verus!

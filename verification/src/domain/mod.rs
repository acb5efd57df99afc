//! Pure domain models — no I/O, no clocks, no infrastructure.

pub mod order;
pub mod portfolio;

use vstd::prelude::*;
use crate::decimal::{Dec, dec_of_int, dec_le, decimal_checked_add, decimal_checked_mul, decimal_checked_div};
use self::order::OrderStatus;

verus! {

/// Business-rule violations shared by the domain.
#[derive(Debug, Clone, PartialEq)]
pub enum DomainError {
    NonPositiveQuantity { quantity: i64 },
    LimitNeedsPrice,
    MarketCarriesPrice,
    FilledOutOfRange { filled: i64, quantity: i64 },
    WrongStatus { action: &'static str, status: OrderStatus },
    AmendBelowFilled { quantity: i64, filled: i64 },
    InsufficientPosition { symbol: String, requested: i64, held: i64 },
    /// A share count or an exact decimal left its range (where plain
    /// arithmetic would overflow or panic).
    ArithmeticOverflow,
}

/// Exact average price after adding `add_qty` shares at `add_price` to
/// `current_qty` shares held at `current_avg`:
/// `(current_avg * current_qty + add_price * add_qty) / (current_qty + add_qty)`,
/// each step as `rust_decimal` computes it.
pub open spec fn blended_average_spec(current_qty: int, current_avg: Dec, add_qty: int, add_price: Dec) -> Option<Dec> {
    match decimal_checked_mul(current_avg, dec_of_int(current_qty)) {
        Some(held_cost) => match decimal_checked_mul(add_price, dec_of_int(add_qty)) {
            Some(added_cost) => match decimal_checked_add(held_cost, added_cost) {
                Some(total_cost) => decimal_checked_div(total_cost, dec_of_int(current_qty + add_qty)),
                None => None,
            },
            None => None,
        },
        None => None,
    }
}

/// The blended average; `None` where the arithmetic overflows (or the total
/// quantity is zero).
pub fn blended_average(current_qty: i64, current_avg: Dec, add_qty: i64, add_price: Dec) -> (r: Option<Dec>)
    requires
        i64::MIN <= current_qty + add_qty <= i64::MAX,
    ensures
        r == blended_average_spec(current_qty as int, current_avg, add_qty as int, add_price),
{
    let held_cost = match current_avg.checked_mul(&Dec::from_i64(current_qty)) {
        Some(v) => v,
        None => return None,
    };
    let added_cost = match add_price.checked_mul(&Dec::from_i64(add_qty)) {
        Some(v) => v,
        None => return None,
    };
    let total_cost = match held_cost.checked_add(&added_cost) {
        Some(v) => v,
        None => return None,
    };
    total_cost.checked_div(&Dec::from_i64(current_qty + add_qty))
}

} // verus!

//! Storage boundary values: the exact conversion between decimal KRW and
//! the integers the database keeps.

pub mod money;

use vstd::prelude::*;
use crate::decimal::Dec;

verus! {

/// A position row as the store keeps it.
#[derive(Debug, Clone)]
pub struct StoredPosition {
    pub symbol: String,
    pub quantity: i64,
    pub average_price: Dec,
}

} // verus!

//! Order aggregate: shape invariants plus amend/cancel rules.
//!
//! The full transition table lives in the execution layer; this module
//! enforces order-shaped invariants and amend/cancel guards only.

use vstd::prelude::*;
use crate::decimal::{Dec, dec_of_int, dec_le, decimal_checked_add, decimal_checked_mul, decimal_checked_div};
use crate::types::{OrderSide, OrderType, Price, Quantity, Symbol};
use super::DomainError;

verus! {

#[derive(Debug, Clone, Copy, PartialEq, Eq, Hash, Structural)]
pub enum OrderStatus {
    Pending,
    Submitted,
    PartiallyFilled,
    Filled,
    Cancelled,
    Rejected,
    Unknown,
}

pub open spec fn is_amendable(s: OrderStatus) -> bool {
    s == OrderStatus::Pending || s == OrderStatus::Submitted || s == OrderStatus::PartiallyFilled
}

pub open spec fn is_terminal(s: OrderStatus) -> bool {
    s == OrderStatus::Filled || s == OrderStatus::Cancelled || s == OrderStatus::Rejected
}

pub open spec fn status_name(s: OrderStatus) -> Seq<char> {
    match s {
        OrderStatus::Pending => "pending"@,
        OrderStatus::Submitted => "submitted"@,
        OrderStatus::PartiallyFilled => "partially_filled"@,
        OrderStatus::Filled => "filled"@,
        OrderStatus::Cancelled => "cancelled"@,
        OrderStatus::Rejected => "rejected"@,
        OrderStatus::Unknown => "unknown"@,
    }
}

impl OrderStatus {
    /// Partially-filled orders stay amendable: the amendment applies to the
    /// remainder and must stay >= the already-filled part.
    pub fn amendable(&self) -> (r: bool)
        ensures
            r == is_amendable(*self),
    {
        match self {
            OrderStatus::Pending | OrderStatus::Submitted | OrderStatus::PartiallyFilled => true,
            _ => false,
        }
    }

    pub fn terminal(&self) -> (r: bool)
        ensures
            r == is_terminal(*self),
    {
        match self {
            OrderStatus::Filled | OrderStatus::Cancelled | OrderStatus::Rejected => true,
            _ => false,
        }
    }

    /// Lowercase snake-case name, as the status is displayed and stored.
    pub fn as_str(&self) -> (r: &'static str)
        ensures
            r@ == status_name(*self),
    {
        match self {
            OrderStatus::Pending => "pending",
            OrderStatus::Submitted => "submitted",
            OrderStatus::PartiallyFilled => "partially_filled",
            OrderStatus::Filled => "filled",
            OrderStatus::Cancelled => "cancelled",
            OrderStatus::Rejected => "rejected",
            OrderStatus::Unknown => "unknown",
        }
    }
}

/// The first shape rule an order with these terms breaks, in the order the
/// rules are checked; `None` when the shape is valid.
pub open spec fn shape_error(
    quantity: i64,
    order_type: OrderType,
    limit_price: Option<Dec>,
    filled: i64,
) -> Option<DomainError> {
    if quantity <= 0 {
        Some(DomainError::NonPositiveQuantity { quantity })
    } else if order_type == OrderType::Limit && (limit_price is None || dec_le(
        limit_price.unwrap(),
        dec_of_int(0),
    )) {
        Some(DomainError::LimitNeedsPrice)
    } else if order_type == OrderType::Market && limit_price is Some {
        Some(DomainError::MarketCarriesPrice)
    } else if filled < 0 || filled > quantity {
        Some(DomainError::FilledOutOfRange { filled, quantity })
    } else {
        None
    }
}

/// Parameters for restoring an order at a given status (restart recovery).
#[derive(Debug, Clone)]
pub struct RestoredOrder {
    pub client_order_id: String,
    pub symbol: Symbol,
    pub side: OrderSide,
    pub order_type: OrderType,
    pub quantity: Quantity,
    pub limit_price: Option<Price>,
    pub status: OrderStatus,
    pub filled_quantity: Quantity,
}

/// The terms of an order as plain values.
pub struct OrderView {
    pub client_order_id: Seq<char>,
    pub symbol: Seq<char>,
    pub side: OrderSide,
    pub order_type: OrderType,
    pub quantity: i64,
    pub limit_price: Option<Dec>,
    pub status: OrderStatus,
    pub filled_quantity: i64,
}

impl OrderView {
    pub open spec fn shape(self) -> Option<DomainError> {
        shape_error(self.quantity, self.order_type, self.limit_price, self.filled_quantity)
    }
}

#[derive(Debug, Clone)]
pub struct Order {
    client_order_id: String,
    symbol: Symbol,
    side: OrderSide,
    order_type: OrderType,
    quantity: Quantity,
    limit_price: Option<Price>,
    status: OrderStatus,
    filled_quantity: Quantity,
}

impl View for Order {
    type V = OrderView;

    closed spec fn view(&self) -> OrderView {
        OrderView {
            client_order_id: self.client_order_id@,
            symbol: self.symbol@,
            side: self.side,
            order_type: self.order_type,
            quantity: self.quantity,
            limit_price: self.limit_price,
            status: self.status,
            filled_quantity: self.filled_quantity,
        }
    }
}

fn check_shape(
    quantity: i64,
    order_type: OrderType,
    limit_price: Option<Dec>,
    filled: i64,
) -> (r: Result<(), DomainError>)
    ensures
        match shape_error(quantity, order_type, limit_price, filled) {
            Some(e) => r == Err::<(), DomainError>(e),
            None => r is Ok,
        },
{
    if quantity <= 0 {
        return Err(DomainError::NonPositiveQuantity { quantity });
    }
    match (order_type, limit_price) {
        (OrderType::Limit, None) => return Err(DomainError::LimitNeedsPrice),
        (OrderType::Limit, Some(price)) => {
            if price.le(&Dec::zero()) {
                return Err(DomainError::LimitNeedsPrice);
            }
        },
        (OrderType::Market, Some(_)) => return Err(DomainError::MarketCarriesPrice),
        _ => {},
    }
    if filled < 0 || filled > quantity {
        return Err(DomainError::FilledOutOfRange { filled, quantity });
    }
    Ok(())
}

impl Order {
    /// A new pending order; refused when its shape is invalid.
    pub fn new(
        client_order_id: &str,
        symbol: Symbol,
        side: OrderSide,
        order_type: OrderType,
        quantity: Quantity,
        limit_price: Option<Price>,
    ) -> (r: Result<Order, DomainError>)
        ensures
            match shape_error(quantity, order_type, limit_price, 0) {
                Some(e) => r == Err::<Order, DomainError>(e),
                None => r matches Ok(o) && o@ == (OrderView {
                    client_order_id: client_order_id@,
                    symbol: symbol@,
                    side,
                    order_type,
                    quantity,
                    limit_price,
                    status: OrderStatus::Pending,
                    filled_quantity: 0,
                }),
            },
    {
        check_shape(quantity, order_type, limit_price, 0)?;
        Ok(
            Order {
                client_order_id: String::from_str(client_order_id),
                symbol,
                side,
                order_type,
                quantity,
                limit_price,
                status: OrderStatus::Pending,
                filled_quantity: 0,
            },
        )
    }

    pub fn client_order_id(&self) -> (r: &str)
        ensures
            r@ == self@.client_order_id,
    {
        self.client_order_id.as_str()
    }

    pub fn symbol(&self) -> (r: &Symbol)
        ensures
            r@ == self@.symbol,
    {
        &self.symbol
    }

    pub fn side(&self) -> (r: OrderSide)
        ensures
            r == self@.side,
    {
        self.side
    }

    pub fn order_type(&self) -> (r: OrderType)
        ensures
            r == self@.order_type,
    {
        self.order_type
    }

    pub fn quantity(&self) -> (r: Quantity)
        ensures
            r == self@.quantity,
    {
        self.quantity
    }

    pub fn limit_price(&self) -> (r: Option<Price>)
        ensures
            r == self@.limit_price,
    {
        self.limit_price
    }

    pub fn status(&self) -> (r: OrderStatus)
        ensures
            r == self@.status,
    {
        self.status
    }

    pub fn filled_quantity(&self) -> (r: Quantity)
        ensures
            r == self@.filled_quantity,
    {
        self.filled_quantity
    }

    /// Build an order directly at a status — restart recovery path only.
    /// The terms are checked as for a new order first, then with the
    /// restored fill.
    pub fn restored(restored: RestoredOrder) -> (r: Result<Order, DomainError>)
        ensures
            match shape_error(restored.quantity, restored.order_type, restored.limit_price, 0) {
                Some(e) => r == Err::<Order, DomainError>(e),
                None => match shape_error(
                    restored.quantity,
                    restored.order_type,
                    restored.limit_price,
                    restored.filled_quantity,
                ) {
                    Some(e) => r == Err::<Order, DomainError>(e),
                    None => r matches Ok(o) && o@ == (OrderView {
                        client_order_id: restored.client_order_id@,
                        symbol: restored.symbol@,
                        side: restored.side,
                        order_type: restored.order_type,
                        quantity: restored.quantity,
                        limit_price: restored.limit_price,
                        status: restored.status,
                        filled_quantity: restored.filled_quantity,
                    }),
                },
            },
    {
        check_shape(restored.quantity, restored.order_type, restored.limit_price, 0)?;
        check_shape(
            restored.quantity,
            restored.order_type,
            restored.limit_price,
            restored.filled_quantity,
        )?;
        Ok(
            Order {
                client_order_id: restored.client_order_id,
                symbol: restored.symbol,
                side: restored.side,
                order_type: restored.order_type,
                quantity: restored.quantity,
                limit_price: restored.limit_price,
                status: restored.status,
                filled_quantity: restored.filled_quantity,
            },
        )
    }

    fn copy_with(&self, quantity: Quantity, limit_price: Option<Price>, status: OrderStatus, filled_quantity: Quantity) -> (r: Order)
        ensures
            r@ == (OrderView { quantity, limit_price, status, filled_quantity, ..self@ }),
    {
        Order {
            client_order_id: self.client_order_id.clone(),
            symbol: self.symbol.duplicate(),
            side: self.side,
            order_type: self.order_type,
            quantity,
            limit_price,
            status,
            filled_quantity,
        }
    }

    /// Return a new order with amended terms (self stays untouched). The
    /// shape is re-checked whenever a new quantity or limit price is given,
    /// so an amendment never leaves a quantity of zero or less.
    pub fn amend(&self, quantity: Option<Quantity>, limit_price: Option<Price>) -> (r: Result<Order, DomainError>)
        ensures
            ({
                let new_quantity = match quantity {
                    Some(q) => q,
                    None => self@.quantity,
                };
                let new_price = match limit_price {
                    Some(p) => Some(p),
                    None => self@.limit_price,
                };
                if !is_amendable(self@.status) {
                    r matches Err(DomainError::WrongStatus { action, status }) && action@ == "amend"@
                        && status == self@.status
                } else if new_quantity < self@.filled_quantity {
                    r == Err::<Order, DomainError>(
                        DomainError::AmendBelowFilled { quantity: new_quantity, filled: self@.filled_quantity },
                    )
                } else if (quantity is Some || limit_price is Some) && shape_error(
                    new_quantity,
                    self@.order_type,
                    new_price,
                    self@.filled_quantity,
                ) is Some {
                    r == Err::<Order, DomainError>(
                        shape_error(new_quantity, self@.order_type, new_price, self@.filled_quantity).unwrap(),
                    )
                } else {
                    r matches Ok(o) && o@ == (OrderView {
                        quantity: new_quantity,
                        limit_price: new_price,
                        ..self@
                    })
                }
            }),
    {
        if !self.status.amendable() {
            proof {
                reveal_strlit("amend");
            }
            return Err(DomainError::WrongStatus { action: "amend", status: self.status });
        }
        let new_quantity = match quantity {
            Some(q) => q,
            None => self.quantity,
        };
        if new_quantity < self.filled_quantity {
            return Err(
                DomainError::AmendBelowFilled { quantity: new_quantity, filled: self.filled_quantity },
            );
        }
        let new_price = match limit_price {
            Some(price) => Some(price),
            None => self.limit_price,
        };
        if quantity.is_some() || limit_price.is_some() {
            check_shape(new_quantity, self.order_type, new_price, self.filled_quantity)?;
        }
        Ok(self.copy_with(new_quantity, new_price, self.status, self.filled_quantity))
    }

    /// Return a new order marked cancelled (remainder after partial fills).
    pub fn cancel(&self) -> (r: Result<Order, DomainError>)
        ensures
            is_terminal(self@.status) ==> (r matches Err(DomainError::WrongStatus { action, status })
                && action@ == "cancel"@ && status == self@.status),
            !is_terminal(self@.status) ==> (r matches Ok(o) && o@ == (OrderView {
                status: OrderStatus::Cancelled,
                ..self@
            })),
    {
        if self.status.terminal() {
            proof {
                reveal_strlit("cancel");
            }
            return Err(DomainError::WrongStatus { action: "cancel", status: self.status });
        }
        Ok(self.copy_with(self.quantity, self.limit_price, OrderStatus::Cancelled, self.filled_quantity))
    }

    /// Transition hook used by the execution layer (single mutation point).
    pub fn with_status(&self, status: OrderStatus, filled_quantity: Quantity) -> (r: Result<Order, DomainError>)
        ensures
            match shape_error(self@.quantity, self@.order_type, self@.limit_price, filled_quantity) {
                Some(e) => r == Err::<Order, DomainError>(e),
                None => r matches Ok(o) && o@ == (OrderView { status, filled_quantity, ..self@ }),
            },
    {
        check_shape(self.quantity, self.order_type, self.limit_price, filled_quantity)?;
        Ok(self.copy_with(self.quantity, self.limit_price, status, filled_quantity))
    }
}

} // verus!

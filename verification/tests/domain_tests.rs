use lossfunction::decimal::Dec;
use lossfunction::domain::order::{Order, OrderStatus, RestoredOrder};
use lossfunction::domain::portfolio::{Fill, Portfolio};
use lossfunction::domain::DomainError;
use lossfunction::types::{OrderSide, OrderType, Symbol};
use rust_decimal::Decimal;

fn rd(d: &Dec) -> Decimal {
    Decimal::from_i128_with_scale(d.mantissa(), d.scale())
}

fn symbol(code: &str) -> Symbol {
    Symbol::parse(code).unwrap()
}

fn restored(status: OrderStatus, filled: i64) -> Result<Order, DomainError> {
    Order::restored(RestoredOrder {
        client_order_id: "c".into(),
        symbol: symbol("005930"),
        side: OrderSide::Buy,
        order_type: OrderType::Market,
        quantity: 10,
        limit_price: None,
        status,
        filled_quantity: filled,
    })
}

fn order() -> Order {
    Order::new("c-1", symbol("005930"), OrderSide::Buy, OrderType::Market, 10, None).unwrap()
}

fn fill(code: &str, side: OrderSide, qty: i64, price: i64) -> Fill {
    Fill { client_order_id: "c-1".into(), symbol: symbol(code), side, quantity: qty, price: Dec::from_i64(price) }
}

#[test]
fn shape_invariants() {
    assert!(matches!(
        Order::new("c", symbol("005930"), OrderSide::Buy, OrderType::Market, 0, None).err().unwrap(),
        DomainError::NonPositiveQuantity { quantity: 0 }
    ));
    assert!(matches!(
        Order::new("c", symbol("005930"), OrderSide::Buy, OrderType::Limit, 10, None).err().unwrap(),
        DomainError::LimitNeedsPrice
    ));
    assert!(matches!(
        Order::new("c", symbol("005930"), OrderSide::Buy, OrderType::Limit, 10, Some(Dec::zero())).err().unwrap(),
        DomainError::LimitNeedsPrice
    ));
    assert!(matches!(
        Order::new("c", symbol("005930"), OrderSide::Buy, OrderType::Market, 10, Some(Dec::from_i64(80_000)))
            .err()
            .unwrap(),
        DomainError::MarketCarriesPrice
    ));
    assert!(matches!(
        restored(OrderStatus::Filled, 11).err().unwrap(),
        DomainError::FilledOutOfRange { filled: 11, quantity: 10 }
    ));
}

#[test]
fn amend_to_zero_quantity_is_refused() {
    let o = Order::new("c-1", symbol("005930"), OrderSide::Buy, OrderType::Market, 10, None).unwrap();
    assert!(matches!(o.amend(Some(0), None), Err(DomainError::NonPositiveQuantity { quantity: 0 })));
    assert!(matches!(o.amend(Some(-3), None), Err(DomainError::AmendBelowFilled { quantity: -3, filled: 0 })));
    assert_eq!(o.amend(Some(5), None).unwrap().quantity(), 5);
}

#[test]
fn amend_returns_new_instance_and_respects_guards() {
    let original =
        Order::new("c", symbol("005930"), OrderSide::Buy, OrderType::Limit, 10, Some(Dec::from_i64(79_000))).unwrap();

    let amended = original.amend(Some(20), Some(Dec::from_i64(78_500))).unwrap();
    assert_eq!(amended.quantity(), 20);
    assert_eq!(amended.limit_price().map(|d| rd(&d)), Some(Decimal::from(78_500)));
    assert_eq!(original.quantity(), 10);

    let filled = restored(OrderStatus::Filled, 10).unwrap();
    assert!(matches!(filled.amend(Some(20), None).err().unwrap(), DomainError::WrongStatus { action: "amend", .. }));

    let partial = restored(OrderStatus::PartiallyFilled, 8).unwrap();
    assert!(matches!(
        partial.amend(Some(5), None).err().unwrap(),
        DomainError::AmendBelowFilled { quantity: 5, filled: 8 }
    ));
}

#[test]
fn cancel_allowed_while_open_and_after_partial() {
    assert_eq!(order().cancel().unwrap().status(), OrderStatus::Cancelled);
    let partial = restored(OrderStatus::PartiallyFilled, 5).unwrap();
    assert_eq!(partial.cancel().unwrap().status(), OrderStatus::Cancelled);
}

#[test]
fn cancel_rejected_for_terminal_statuses() {
    for status in [OrderStatus::Filled, OrderStatus::Cancelled, OrderStatus::Rejected] {
        let terminal = restored(status, 10).unwrap();
        assert!(matches!(terminal.cancel().err().unwrap(), DomainError::WrongStatus { action: "cancel", .. }));
    }
}

#[test]
fn buy_creates_position_at_fill_price() {
    let portfolio = Portfolio::new().apply_fill(fill("005930", OrderSide::Buy, 10, 80_000)).unwrap();
    let position = portfolio.position(&symbol("005930")).unwrap();
    assert_eq!(position.quantity, 10);
    assert_eq!(rd(&position.average_price), Decimal::from(80_000));
}

#[test]
fn portfolio_average_price_blends_across_buys() {
    let portfolio = Portfolio::new()
        .apply_fill(fill("005930", OrderSide::Buy, 10, 80_000))
        .unwrap()
        .apply_fill(fill("005930", OrderSide::Buy, 10, 82_000))
        .unwrap();
    let position = portfolio.position(&symbol("005930")).unwrap();
    assert_eq!(position.quantity, 20);
    assert_eq!(rd(&position.average_price), Decimal::from(81_000));
}

#[test]
fn sell_keeps_average_price_and_books_realized_pnl() {
    let portfolio = Portfolio::new()
        .apply_fill(fill("005930", OrderSide::Buy, 10, 80_000))
        .unwrap()
        .apply_fill(fill("005930", OrderSide::Sell, 4, 85_000))
        .unwrap();
    let position = portfolio.position(&symbol("005930")).unwrap();
    assert_eq!(position.quantity, 6);
    assert_eq!(rd(&position.average_price), Decimal::from(80_000));
    assert_eq!(rd(&position.realized_pnl), Decimal::from(20_000));
    assert_eq!(portfolio.total_realized_pnl().map(|d| rd(&d)), Some(Decimal::from(20_000)));
}

#[test]
fn full_sell_leaves_zero_quantity_entry() {
    let portfolio = Portfolio::new()
        .apply_fill(fill("005930", OrderSide::Buy, 10, 80_000))
        .unwrap()
        .apply_fill(fill("005930", OrderSide::Sell, 10, 90_000))
        .unwrap();
    let position = portfolio.position(&symbol("005930")).unwrap();
    assert_eq!(position.quantity, 0);
    assert_eq!(rd(&position.realized_pnl), Decimal::from(100_000));
}

#[test]
fn oversell_and_bare_sell_rejected() {
    let portfolio = Portfolio::new().apply_fill(fill("005930", OrderSide::Buy, 5, 80_000)).unwrap();
    assert!(matches!(
        portfolio.apply_fill(fill("005930", OrderSide::Sell, 6, 85_000)),
        Err(DomainError::InsufficientPosition { requested: 6, held: 5, .. })
    ));
    assert!(matches!(
        Portfolio::new().apply_fill(fill("005930", OrderSide::Sell, 1, 80_000)),
        Err(DomainError::InsufficientPosition { requested: 1, held: 0, .. })
    ));
}

#[test]
fn positions_are_independent() {
    let portfolio = Portfolio::new()
        .apply_fill(fill("005930", OrderSide::Buy, 10, 80_000))
        .unwrap()
        .apply_fill(fill("035420", OrderSide::Buy, 3, 41_000))
        .unwrap();
    assert_eq!(rd(&portfolio.position(&symbol("005930")).unwrap().average_price), Decimal::from(80_000));
    assert_eq!(rd(&portfolio.position(&symbol("035420")).unwrap().average_price), Decimal::from(41_000));
}

#[test]
fn blending_handles_fractional_averages_exactly() {
    let portfolio = Portfolio::new()
        .apply_fill(fill("005930", OrderSide::Buy, 3, 10))
        .unwrap()
        .apply_fill(fill("005930", OrderSide::Buy, 4, 20))
        .unwrap();
    assert_eq!(
        rd(&portfolio.position(&symbol("005930")).unwrap().average_price),
        Decimal::from(110) / Decimal::from(7)
    );
}

#[test]
fn positions_come_out_in_ticker_order() {
    let portfolio = Portfolio::new()
        .apply_fill(fill("035420", OrderSide::Buy, 3, 41_000))
        .unwrap()
        .apply_fill(fill("005930", OrderSide::Buy, 10, 80_000))
        .unwrap();
    let codes: Vec<String> = portfolio.positions().iter().map(|p| p.symbol.as_str().to_string()).collect();
    assert_eq!(codes, vec!["005930", "035420"]);
}

use lossfunction::execution::state_machine::{transitions, StateMachine, TransitionError};
use lossfunction::domain::order::OrderStatus;
use lossfunction::types::{OrderSide, OrderType, Symbol};

const ALL: [OrderStatus; 7] = [
    OrderStatus::Pending,
    OrderStatus::Submitted,
    OrderStatus::PartiallyFilled,
    OrderStatus::Filled,
    OrderStatus::Cancelled,
    OrderStatus::Rejected,
    OrderStatus::Unknown,
];

#[test]
fn symbol_accepts_six_digits() {
    assert_eq!(Symbol::parse("005930").unwrap().as_str(), "005930");
}

#[test]
fn symbol_rejects_other_shapes() {
    for bad in ["AAPL", "0059", "0059300", "0593Oa"] {
        assert!(Symbol::parse(bad).is_err(), "{bad} should be rejected");
    }
}

#[test]
fn sides_and_types_render_lowercase() {
    assert_eq!(OrderSide::Buy.as_str(), "buy");
    assert_eq!(OrderSide::Sell.as_str(), "sell");
    assert_eq!(OrderType::Limit.as_str(), "limit");
    assert_eq!(OrderType::Market.as_str(), "market");
}

#[test]
fn symbol_code_orders_tickers() {
    let a = Symbol::parse("005930").unwrap();
    let b = Symbol::parse("035420").unwrap();
    assert_eq!(a.code(), 5930);
    assert!(a.precedes(&b));
    assert!(!b.precedes(&a));
}

#[test]
fn transition_table_covers_every_status() {
    for status in ALL {
        assert!(!transitions(status).is_empty() || status.terminal());
    }
}

#[test]
fn terminal_statuses_accept_nothing() {
    for status in [OrderStatus::Filled, OrderStatus::Cancelled, OrderStatus::Rejected] {
        assert!(transitions(status).is_empty());
    }
}

#[test]
fn all_pairs_classified() {
    for from in ALL {
        let legal: Vec<OrderStatus> = transitions(from);
        for to in ALL {
            let mut machine = StateMachine::new();
            machine.register("o-1", from).unwrap();
            let result = machine.transition("o-1", to, "test", 0);
            if legal.contains(&to) {
                assert_eq!(result.unwrap(), to, "{from:?}->{to:?} must be legal");
            } else if to != from {
                assert!(result.is_err(), "{from:?}->{to:?} must be illegal");
            }
        }
    }
}

#[test]
fn unknown_entry_paths() {
    for source in [OrderStatus::Pending, OrderStatus::Submitted] {
        let mut machine = StateMachine::new();
        machine.register("o-1", source).unwrap();
        machine.mark_unknown("o-1", "submit timeout", 0).unwrap();
        assert_eq!(machine.status("o-1"), Some(OrderStatus::Unknown));
    }
    for blocked in [
        OrderStatus::PartiallyFilled,
        OrderStatus::Filled,
        OrderStatus::Cancelled,
        OrderStatus::Rejected,
        OrderStatus::Unknown,
    ] {
        let mut machine = StateMachine::new();
        machine.register("o-1", blocked).unwrap();
        assert!(matches!(
            machine.mark_unknown("o-1", "late timeout", 0),
            Err(TransitionError::UnknownEntryBlocked { .. })
        ));
    }
}

#[test]
fn every_legal_transition_emits_exactly_one_event() {
    let mut machine = StateMachine::new();
    machine.register("o-1", OrderStatus::Pending).unwrap();
    machine.transition("o-1", OrderStatus::Submitted, "broker ack", 1).unwrap();
    machine.transition("o-1", OrderStatus::PartiallyFilled, "fill 10/20", 2).unwrap();
    machine.transition("o-1", OrderStatus::Filled, "fill 20/20", 3).unwrap();
    assert_eq!(machine.history("o-1").len(), 3);

    let events = machine.history("o-1");
    assert_eq!(events[0].from_status, OrderStatus::Pending);
    assert_eq!(events[2].to_status, OrderStatus::Filled);
    assert_eq!(events[1].reason, "fill 10/20");
    assert_eq!(events[1].occurred_at, 2);
}

#[test]
fn illegal_transition_emits_nothing_and_keeps_status() {
    let mut machine = StateMachine::new();
    machine.register("o-1", OrderStatus::Filled).unwrap();
    assert!(machine.transition("o-1", OrderStatus::Submitted, "late ack", 0).is_err());
    assert_eq!(machine.status("o-1"), Some(OrderStatus::Filled));
    assert!(machine.history("o-1").is_empty());
}

#[test]
fn unregistered_and_duplicate_registration_rejected() {
    let mut machine = StateMachine::new();
    assert!(matches!(
        machine.transition("o-404", OrderStatus::Submitted, "?", 0),
        Err(TransitionError::Unregistered(_))
    ));
    machine.register("o-1", OrderStatus::Pending).unwrap();
    assert!(matches!(
        machine.register("o-1", OrderStatus::Pending),
        Err(TransitionError::AlreadyRegistered(_))
    ));
}

#[test]
fn unknown_resolves_via_reconciliation() {
    for resolved in [OrderStatus::Filled, OrderStatus::Cancelled, OrderStatus::Submitted] {
        let mut machine = StateMachine::new();
        machine.register("o-1", OrderStatus::Pending).unwrap();
        machine.mark_unknown("o-1", "timeout", 0).unwrap();
        machine.transition("o-1", resolved, "broker reconciliation", 1).unwrap();
        assert_eq!(machine.status("o-1"), Some(resolved));
    }
}

#[test]
fn sides_and_types_serialize_lowercase() {
    assert_eq!(serde_json::to_string(OrderSide::Buy.as_str()).unwrap(), "\"buy\"");
    assert_eq!(serde_json::to_string(OrderType::Limit.as_str()).unwrap(), "\"limit\"");
}

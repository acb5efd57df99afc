use lossfunction::broker::{BrokerError, ExecutionReport, OrderAck};
use lossfunction::decimal::Dec;
use lossfunction::domain::order::{Order, OrderStatus};
use lossfunction::execution::gateway::{target_status, OrderGateway, Reconciler, SubmitError};
use lossfunction::execution::state_machine::StateMachine;
use lossfunction::types::{OrderSide, OrderType, Symbol};

fn order(id: &str) -> Order {
    Order::new(id, Symbol::parse("005930").unwrap(), OrderSide::Buy, OrderType::Limit, 10, Some(Dec::from_i64(79_000)))
        .unwrap()
}

fn report(order_quantity: i64, filled: i64, open: bool) -> ExecutionReport {
    ExecutionReport {
        broker_order_id: "B-1".into(),
        client_order_id: "c-1".into(),
        symbol: Symbol::parse("005930").unwrap(),
        side: OrderSide::Buy,
        order_type: OrderType::Limit,
        order_quantity,
        filled_quantity: filled,
        average_fill_price: if filled > 0 { Some(Dec::from_i64(79_000)) } else { None },
        open,
        timestamp: 0,
    }
}

/// One submission through the gateway: the broker is called only when the
/// gateway hands out a request.
fn submit_via(
    gateway: &mut OrderGateway,
    machine: &mut StateMachine,
    order: &Order,
    answer: &dyn Fn() -> Result<OrderAck, BrokerError>,
    broker_calls: &mut usize,
) -> Result<OrderAck, SubmitError> {
    let request = gateway.submit(machine, order)?;
    *broker_calls += 1;
    let outcome = answer().map(|ack| OrderAck {
        client_order_id: request.client_order_id.clone(),
        broker_order_id: ack.broker_order_id,
    });
    gateway.settle(machine, order.client_order_id(), outcome, 0)
}

fn ack() -> Result<OrderAck, BrokerError> {
    Ok(OrderAck { client_order_id: String::new(), broker_order_id: "B-1".into() })
}

fn lookup(reports: &[(&str, ExecutionReport)], id: &str) -> Result<ExecutionReport, BrokerError> {
    reports
        .iter()
        .find(|(key, _)| *key == id)
        .map(|(_, r)| r.clone())
        .ok_or(BrokerError::UnknownOrder(id.to_string()))
}

#[test]
fn duplicate_submission_blocked_before_broker_call() {
    let mut gateway = OrderGateway::new();
    let mut machine = StateMachine::new();
    let mut calls = 0;
    submit_via(&mut gateway, &mut machine, &order("c-1"), &ack, &mut calls).unwrap();
    assert!(matches!(
        submit_via(&mut gateway, &mut machine, &order("c-1"), &ack, &mut calls),
        Err(SubmitError::Duplicate(_))
    ));
    assert_eq!(calls, 1);
    assert_eq!(gateway.broker_order_id("c-1").as_deref(), Some("B-1"));
}

#[test]
fn timeout_moves_to_unknown_and_blocks_retry() {
    let mut gateway = OrderGateway::new();
    let mut machine = StateMachine::new();
    let mut calls = 0;
    let glitch = || Err(BrokerError::Internal("network glitch".into()));
    assert!(matches!(
        submit_via(&mut gateway, &mut machine, &order("c-1"), &glitch, &mut calls),
        Err(SubmitError::Timeout(_))
    ));
    assert_eq!(machine.status("c-1"), Some(OrderStatus::Unknown));
    assert!(matches!(
        submit_via(&mut gateway, &mut machine, &order("c-1"), &glitch, &mut calls),
        Err(SubmitError::Duplicate(_))
    ));
    assert_eq!(calls, 1);
}

#[test]
fn definitive_rejection_moves_to_rejected() {
    let mut gateway = OrderGateway::new();
    let mut machine = StateMachine::new();
    let mut calls = 0;
    let refuse = || Err(BrokerError::Rejected("rt_cd=1 msg_cd=40150".into()));
    assert!(matches!(
        submit_via(&mut gateway, &mut machine, &order("c-1"), &refuse, &mut calls),
        Err(SubmitError::Broker(BrokerError::Rejected(_)))
    ));
    assert_eq!(machine.status("c-1"), Some(OrderStatus::Rejected));
}

#[test]
fn reconcile_resolves_all_four_report_shapes() {
    for (report, expected) in [
        (report(10, 10, false), OrderStatus::Filled),
        (report(10, 4, true), OrderStatus::PartiallyFilled),
        (report(10, 0, true), OrderStatus::Submitted),
        (report(10, 4, false), OrderStatus::Cancelled),
    ] {
        assert_eq!(target_status(&report), expected);
        let reconciler = Reconciler::new();
        let mut machine = StateMachine::new();
        machine.register("c-1", OrderStatus::Pending).unwrap();
        machine.mark_unknown("c-1", "timeout", 0).unwrap();
        let status = reconciler.reconcile(&mut machine, "c-1", Ok(report), 1).unwrap();
        assert_eq!(status, expected);
    }
}

#[test]
fn order_missing_at_broker_is_rejected() {
    let reconciler = Reconciler::new();
    let mut machine = StateMachine::new();
    machine.register("c-1", OrderStatus::Pending).unwrap();
    machine.mark_unknown("c-1", "timeout", 0).unwrap();
    let status = reconciler.reconcile(&mut machine, "c-1", lookup(&[], "B-1"), 1).unwrap();
    assert_eq!(status, OrderStatus::Rejected);
}

#[test]
fn reconcile_is_idempotent() {
    let reports = [("B-1", report(10, 10, false))];
    let reconciler = Reconciler::new();
    let mut machine = StateMachine::new();
    machine.register("c-1", OrderStatus::Pending).unwrap();
    machine.mark_unknown("c-1", "timeout", 0).unwrap();

    let first = reconciler.reconcile(&mut machine, "c-1", lookup(&reports, "B-1"), 1).unwrap();
    let again = reconciler.reconcile(&mut machine, "c-1", lookup(&reports, "B-1"), 2).unwrap();
    assert_eq!(first, again);
    assert_eq!(machine.history("c-1").len(), 2);
}

#[test]
fn restart_reconciles_pending_orders() {
    let reports = [("B-1", report(10, 10, false)), ("B-2", report(7, 0, true))];
    let reconciler = Reconciler::new();
    let mut machine = StateMachine::new();
    let pending = [("c-1", "B-1"), ("c-2", "B-2")];
    let mut results = Vec::new();
    for (client, broker) in pending {
        reconciler.recover(&mut machine, client).unwrap();
        let status = reconciler.reconcile(&mut machine, client, lookup(&reports, broker), 1).unwrap();
        results.push((client.to_string(), status));
    }
    assert_eq!(
        results,
        vec![("c-1".to_string(), OrderStatus::Filled), ("c-2".to_string(), OrderStatus::Submitted)]
    );
}

#[test]
fn reconcile_records_the_reports_reason() {
    let reconciler = Reconciler::new();
    let mut machine = StateMachine::new();
    machine.register("c-1", OrderStatus::Pending).unwrap();
    machine.mark_unknown("c-1", "timeout", 0).unwrap();
    reconciler.reconcile(&mut machine, "c-1", Ok(report(10, 4, true)), 5).unwrap();
    let events = machine.history("c-1");
    assert_eq!(events[1].reason, "reconciled: filled 4/10 open=true");
    assert_eq!(events[1].occurred_at, 5);
}

use lossfunction::config::Settings;
use lossfunction::decimal::Dec;
use lossfunction::execution::vwap::{vwap, VwapError, VwapSchedule};
use lossfunction::history::{sma, HistoryWindow};
use lossfunction::types::Symbol;
use rust_decimal::Decimal;
use std::str::FromStr;

fn dec(text: &str) -> Dec {
    let d = Decimal::from_str(text).unwrap();
    Dec::from_parts(d.mantissa(), d.scale()).unwrap()
}

fn rd(d: &Dec) -> Decimal {
    Decimal::from_i128_with_scale(d.mantissa(), d.scale())
}

fn symbol(code: &str) -> Symbol {
    Symbol::parse(code).unwrap()
}

fn closes_of(snapshot: &[(Symbol, Vec<Dec>)], code: &str) -> Vec<Decimal> {
    snapshot
        .iter()
        .find(|(s, _)| s.as_str() == code)
        .map(|(_, closes)| closes.iter().map(rd).collect())
        .unwrap()
}

#[test]
fn schedule_splits_evenly_and_tracks_progress() {
    let mut schedule = VwapSchedule::new(1000, 10).unwrap();
    assert_eq!(schedule.next_slice(), 100);
    assert_eq!(rd(&schedule.progress().unwrap()), Decimal::ZERO);

    for _ in 0..10 {
        let slice = schedule.next_slice();
        assert_eq!(slice, 100);
        schedule.record_fill(slice);
    }
    assert!(schedule.complete());
    assert_eq!(rd(&schedule.progress().unwrap()), Decimal::ONE);
    assert_eq!(schedule.next_slice(), 0);
}

#[test]
fn indivisible_or_invalid_rejected() {
    assert!(matches!(VwapSchedule::new(1001, 10), Err(VwapError::Indivisible { .. })));
    assert!(matches!(VwapSchedule::new(100, 0), Err(VwapError::NonPositiveSlices(0))));
}

#[test]
fn saturation_prevents_overshoot() {
    let mut schedule = VwapSchedule::new(100, 4).unwrap();
    schedule.record_fill(90);
    schedule.record_fill(50);
    assert_eq!(schedule.filled(), 100);
    assert!(schedule.complete());
}

#[test]
fn vwap_matches_hand_computation() {
    let bars = vec![(dec("10000"), 3), (dec("20000"), 1)];
    assert_eq!(vwap(&bars).map(|d| rd(&d)), Some(Decimal::from(12_500)));
    assert_eq!(vwap(&vec![(dec("1"), 0)]).map(|d| rd(&d)), None);
}

#[test]
fn exact_fractional_vwap() {
    let bars = vec![(dec("100.5"), 7), (dec("200.25"), 3)];
    assert_eq!(vwap(&bars).map(|d| rd(&d)), Some(Decimal::from_str("130.425").unwrap()));
}

#[test]
fn window_is_bounded_and_per_symbol() {
    let mut window = HistoryWindow::new(3);
    for value in 1..=5 {
        window.push(&symbol("005930"), Dec::from_i64(value));
    }
    window.push(&symbol("035420"), Dec::from_i64(100));
    assert_eq!(window.len(&symbol("005930")), 3);
    assert_eq!(window.len(&symbol("035420")), 1);
    assert_eq!(
        closes_of(&window.snapshot(), "005930"),
        vec![Decimal::from(3), Decimal::from(4), Decimal::from(5)]
    );
}

#[test]
fn snapshot_cannot_see_future_pushes() {
    let mut window = HistoryWindow::new(10);
    for value in 1..=4 {
        window.push(&symbol("005930"), Dec::from_i64(value));
    }
    let frozen = window.snapshot();
    for value in 5..=8 {
        window.push(&symbol("005930"), Dec::from_i64(value));
    }
    assert_eq!(
        closes_of(&frozen, "005930"),
        vec![Decimal::from(1), Decimal::from(2), Decimal::from(3), Decimal::from(4)]
    );
    assert_eq!(closes_of(&window.snapshot(), "005930").len(), 8);
}

#[test]
fn sma_is_exact_over_the_tail() {
    let closes: Vec<Dec> = (1..=4).map(Dec::from_i64).collect();
    assert_eq!(sma(&closes, 2).map(|d| rd(&d)), Some(Decimal::from(7) / Decimal::from(2)));
    assert_eq!(sma(&closes, 4).map(|d| rd(&d)), Some(Decimal::from(10) / Decimal::from(4)));
    assert_eq!(sma(&closes, 5).map(|d| rd(&d)), None);
    assert_eq!(sma(&closes, 0).map(|d| rd(&d)), None);
}

#[test]
fn window_capacity_comes_from_settings() {
    assert_eq!(Settings::default().history_window_bars, 120);
}

#[test]
fn history_capacity_is_kept() {
    let window = HistoryWindow::new(7);
    assert_eq!(window.capacity(), 7);
    assert_eq!(window.len(&symbol("005930")), 0);
}

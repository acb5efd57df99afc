use chrono::{DateTime, NaiveDate, Utc};
use lossfunction::decimal::Dec;
use lossfunction::kis::auth::parse_kst_expiry;
use lossfunction::marketdata::aggregator::{day_close, trading_day, BarAggregator};
use lossfunction::marketdata::Timeframe;
use lossfunction::storage::money::{int_to_money, money_to_int};
use lossfunction::types::{Quote, Symbol};
use rust_decimal::Decimal;
use std::str::FromStr;

fn rd(d: &Dec) -> Decimal {
    Decimal::from_i128_with_scale(d.mantissa(), d.scale())
}

fn dec(text: &str) -> Dec {
    let d = Decimal::from_str(text).unwrap();
    Dec::from_parts(d.mantissa(), d.scale()).unwrap()
}

fn symbol(code: &str) -> Symbol {
    Symbol::parse(code).unwrap()
}

fn tick_at(day: &str, hour_utc: u32) -> i64 {
    DateTime::parse_from_rfc3339(&format!("{day}T{hour_utc:02}:00:00+00:00"))
        .unwrap()
        .with_timezone(&Utc)
        .timestamp_nanos_opt()
        .unwrap()
}

fn quote(symbol: &Symbol, day: &str, hour_utc: u32, price: &str) -> Quote {
    Quote { symbol: symbol.duplicate(), last_price: dec(price), timestamp: tick_at(day, hour_utc) }
}

fn day_number(y: i32, m: u32, d: u32) -> i64 {
    (NaiveDate::from_ymd_opt(y, m, d).unwrap() - NaiveDate::from_ymd_opt(1970, 1, 1).unwrap()).num_days()
}

fn close_of(y: i32, m: u32, d: u32) -> i64 {
    NaiveDate::from_ymd_opt(y, m, d).unwrap().and_hms_opt(6, 30, 0).unwrap().and_utc().timestamp_nanos_opt().unwrap()
}

#[test]
fn same_date_ticks_update_partial_without_emitting() {
    let mut aggregator = BarAggregator::new();
    let samsung = symbol("005930");
    assert!(aggregator.push(&quote(&samsung, "2026-01-05", 6, "100")).is_none());
    assert!(aggregator.push(&quote(&samsung, "2026-01-05", 7, "110")).is_none());
    assert!(aggregator.push(&quote(&samsung, "2026-01-05", 8, "95")).is_none());

    let (date, open, high, low, close) = aggregator.current(&samsung).unwrap();
    assert_eq!(date, day_number(2026, 1, 5));
    assert_eq!(
        (rd(&open), rd(&high), rd(&low), rd(&close)),
        (Decimal::from(100), Decimal::from(110), Decimal::from(95), Decimal::from(95))
    );
    assert!(aggregator.flush().len() <= 1);
}

#[test]
fn date_change_emits_completed_bar_and_freezes_it() {
    let mut aggregator = BarAggregator::new();
    let samsung = symbol("005930");
    for (hour, price) in [(6u32, "100"), (7, "110"), (8, "95"), (9, "105")] {
        assert!(aggregator.push(&quote(&samsung, "2026-01-05", hour, price)).is_none());
    }
    let bar = aggregator.push(&quote(&samsung, "2026-01-06", 6, "200")).expect("day-1 bar completes");
    assert_eq!(bar.symbol.as_str(), "005930");
    assert_eq!(bar.timeframe, Timeframe::Day);
    assert_eq!(bar.timestamp, close_of(2026, 1, 5));
    assert_eq!(rd(&bar.open), Decimal::from(100));
    assert_eq!(rd(&bar.high), Decimal::from(110));
    assert_eq!(rd(&bar.low), Decimal::from(95));
    assert_eq!(rd(&bar.close), Decimal::from(105));
    assert_eq!(bar.volume, 0);

    assert!(aggregator.push(&quote(&samsung, "2026-01-06", 7, "300")).is_none());
    assert_eq!(rd(&bar.high), Decimal::from(110));
    let (_, _, _, _, close2) = aggregator.current(&samsung).unwrap();
    assert_eq!(rd(&close2), Decimal::from(300));
}

#[test]
fn symbols_aggregate_independently() {
    let mut aggregator = BarAggregator::new();
    let samsung = symbol("005930");
    let naver = symbol("035420");
    aggregator.push(&quote(&samsung, "2026-01-05", 6, "100"));
    aggregator.push(&quote(&naver, "2026-01-05", 6, "400"));
    let bar = aggregator.push(&quote(&naver, "2026-01-06", 6, "410")).unwrap();
    assert_eq!(bar.symbol.as_str(), "035420");
    assert!(aggregator.current(&samsung).is_some());
}

#[test]
fn flush_closes_partials_and_empties() {
    let mut aggregator = BarAggregator::new();
    let samsung = symbol("005930");
    aggregator.push(&quote(&samsung, "2026-01-05", 6, "100"));
    aggregator.push(&quote(&samsung, "2026-01-05", 7, "120"));
    let bars = aggregator.flush();
    assert_eq!(bars.len(), 1);
    assert_eq!(rd(&bars[0].close), Decimal::from(120));
    assert!(aggregator.current(&samsung).is_none());
    assert!(aggregator.flush().is_empty());
}

#[test]
fn trading_date_follows_kst_calendar() {
    let mut aggregator = BarAggregator::new();
    let samsung = symbol("005930");
    aggregator.push(&quote(&samsung, "2026-01-05", 6, "100"));
    aggregator.push(&quote(&samsung, "2026-01-05", 6, "100"));
    let (date, ..) = aggregator.current(&samsung).unwrap();
    assert_eq!(date, day_number(2026, 1, 5));
    let emitted = aggregator.push(&quote(&samsung, "2026-01-06", 6, "101")).is_some();
    assert!(emitted, "01-06 KST tick closes the 01-05 bar");
}

#[test]
fn kst_midnight_starts_the_next_trading_day() {
    // 15:00 UTC is 00:00 KST of the next day.
    assert_eq!(trading_day(tick_at("2026-01-05", 14)), day_number(2026, 1, 5));
    assert_eq!(trading_day(tick_at("2026-01-05", 15)), day_number(2026, 1, 6));
    assert_eq!(day_close(day_number(2026, 1, 5)), close_of(2026, 1, 5));
    assert_eq!(trading_day(tick_at("1969-12-31", 10)), -1);
}

#[test]
fn roundtrip_is_exact() {
    for value in ["80000", "80500.1234", "0.0001", "12345678.9999"] {
        let units = money_to_int(dec(value)).unwrap();
        assert_eq!(rd(&int_to_money(units).unwrap()), Decimal::from_str(value).unwrap());
    }
}

#[test]
fn sub_unit_residues_round_half_even() {
    assert_eq!(money_to_int(dec("1.00005")), Some(10000));
    assert_eq!(money_to_int(dec("1.00015")), Some(10002));
}

#[test]
fn kst_expiry_parses_to_utc() {
    let utc = parse_kst_expiry("2026-09-15 10:00:00").unwrap();
    let text = DateTime::from_timestamp_nanos(utc).to_rfc3339();
    assert_eq!(text, "2026-09-15T01:00:00+00:00");
    assert_eq!(parse_kst_expiry("not a time"), None);
}

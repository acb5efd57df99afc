use lossfunction::kis::rest::balance_next_page;
use chrono::{DateTime, NaiveDate};
use lossfunction::decimal::Dec;
use lossfunction::kis::auth::{classify_token_status, kis_base_url, token_from_body, TokenCache};
use lossfunction::kis::chart::{
    chart_query, merge_bars, page_bars, page_split, parse_chart_row, plan_windows, utc_day, ChartFetch, ChartRow,
    ChartWindow,
};
use lossfunction::kis::rest::{
    account_tr_id, balance_continues, body_verdict, classify_status, execution_report_from_row, order_body,
    order_number, order_tr_id, parse_account_number, positions_from_rows, quote_price, ApiErrorKind, BalanceRow,
    CcldRow, ResultCode, StatusAction,
};
use lossfunction::kis::screener::{ranked_symbols, screener_query, RankRow};
use lossfunction::kis::ws::{
    approval_key_from, approval_request_body, next_delay_index, reconnect_delays_secs, build_subscribe_message, classify_raw, is_pingpong, parse_market_data, DesiredSubscriptions, FrameError, RawKind,
    H0STCNT0_COLUMNS,
};
use lossfunction::broker::OrderRequest;
use lossfunction::marketdata::{bar, Bar, MarketDataError};
use lossfunction::types::{OrderSide, OrderType, Symbol};
use rust_decimal::Decimal;
use serde_json::Value;
use std::str::FromStr;

fn rd(d: &Dec) -> Decimal {
    Decimal::from_i128_with_scale(d.mantissa(), d.scale())
}

fn symbol(code: &str) -> Symbol {
    Symbol::parse(code).unwrap()
}

fn data_frame(price: &str, hour: &str, date: &str) -> String {
    let mut values = vec![""; 46];
    let idx = |name: &str| H0STCNT0_COLUMNS.iter().position(|c| *c == name).unwrap();
    values[idx("MKSC_SHRN_ISCD")] = "005930";
    values[idx("STCK_CNTG_HOUR")] = hour;
    values[idx("STCK_PRPR")] = price;
    values[idx("BSOP_DATE")] = date;
    format!("0|H0STCNT0|005930|{}", values.join("^"))
}

fn values_of(frame: &str) -> Vec<&str> {
    frame.split('|').nth(3).unwrap().split('^').collect()
}

fn rfc3339(ns: i64) -> String {
    DateTime::from_timestamp_nanos(ns).to_rfc3339()
}

#[test]
fn parses_single_and_multi_record_frames() {
    let frame = data_frame("80500", "093012", "20260915");
    let two = format!("{frame}^{}", values_of(&frame).join("^"));
    let quotes = parse_market_data(&two).unwrap();
    assert_eq!(quotes.len(), 2);
    assert_eq!(rd(&quotes[0].last_price), Decimal::from(80_500));
    assert_eq!(rfc3339(quotes[0].timestamp), "2026-09-15T00:30:12+00:00");
}

#[test]
fn rejects_malformed_frames() {
    assert!(matches!(parse_market_data("not-a-frame"), Err(FrameError::UnexpectedFrame(_))));
    let mut values = vec!["x"; 45];
    values[0] = "005930";
    values[2] = "80500";
    values[33] = "20260915";
    values[1] = "093012";
    assert!(matches!(
        parse_market_data(&format!("0|H0STCNT0|005930|{}", values.join("^"))),
        Err(FrameError::NotMultiple { .. })
    ));
}

#[test]
fn frame_errors_name_the_field() {
    let bad_price = data_frame("eighty", "093012", "20260915");
    let error = parse_market_data(&bad_price).unwrap_err();
    assert!(matches!(&error, FrameError::BadField { field: "STCK_PRPR", .. }));
    assert_eq!(error.message(), "bad field STCK_PRPR: eighty");
    let bad_time = data_frame("80500", "99", "20260915");
    let error = parse_market_data(&bad_time).unwrap_err();
    assert_eq!(error.message(), "bad field BSOP_DATE+STCK_CNTG_HOUR: 20260915 99");
    let long = "y".repeat(100);
    match parse_market_data(&long).unwrap_err() {
        FrameError::UnexpectedFrame(head) => assert_eq!(head.chars().count(), 80),
        other => panic!("unexpected {other:?}"),
    }
}

fn object(entries: Vec<(&str, Value)>) -> Value {
    let mut map = serde_json::Map::new();
    for (k, v) in entries {
        map.insert(k.to_string(), v);
    }
    Value::Object(map)
}

#[test]
fn subscribe_message_shape_is_official() {
    let message = build_subscribe_message("approval-1", "H0STCNT0", "005930", true);
    let parsed: Value = serde_json::from_str(&message).unwrap();
    let expected = object(vec![
        (
            "header",
            object(vec![
                ("approval_key", Value::String("approval-1".into())),
                ("tr_type", Value::String("1".into())),
                ("custtype", Value::String("P".into())),
            ]),
        ),
        (
            "body",
            object(vec![(
                "input",
                object(vec![
                    ("tr_id", Value::String("H0STCNT0".into())),
                    ("tr_key", Value::String("005930".into())),
                ]),
            )]),
        ),
    ]);
    assert_eq!(parsed, expected);
    assert_eq!(message, serde_json::to_string(&expected).unwrap());
    let off: Value = serde_json::from_str(&build_subscribe_message("k", "H0STCNT0", "005930", false)).unwrap();
    assert_eq!(off["header"]["tr_type"], "0");
}

#[test]
fn pingpong_detected_in_json_and_plain() {
    assert!(is_pingpong(r#"{"header": {"tr_id": "PINGPONG"}}"#));
    assert!(is_pingpong("PINGPONG"));
    assert!(!is_pingpong(r#"{"header": {"tr_id": "H0STCNT0"}}"#));
}

#[test]
fn raw_messages_are_classified() {
    assert_eq!(classify_raw("0|H0STCNT0|005930|x"), RawKind::MarketData);
    assert_eq!(classify_raw("1|H0STCNT0|005930|x"), RawKind::MarketData);
    assert_eq!(classify_raw(r#"{"header": {"tr_id": "PINGPONG"}}"#), RawKind::PingPong);
    assert_eq!(classify_raw(r#"{"header": {"tr_id": "H0STCNT0"}}"#), RawKind::Other);
}

#[test]
fn desired_state_is_queryable() {
    let mut desired = DesiredSubscriptions::new();
    desired.subscribe(&symbol("005930"));
    assert_eq!(desired.symbols().len(), 1);
    assert!(desired.contains(&symbol("005930")));
}

#[test]
fn unsubscribed_symbols_not_replayed() {
    let mut desired = DesiredSubscriptions::new();
    desired.subscribe(&symbol("005930"));
    desired.subscribe(&symbol("035420"));
    desired.unsubscribe(&symbol("035420"));
    let replayed: Vec<String> = desired
        .replay_messages("approval-1")
        .iter()
        .map(|m| {
            let v: Value = serde_json::from_str(m).unwrap();
            v["body"]["input"]["tr_key"].as_str().unwrap_or("").to_string()
        })
        .collect();
    assert_eq!(replayed, vec!["005930"]);
}

#[test]
fn replay_is_in_ticker_order_without_duplicates() {
    let mut desired = DesiredSubscriptions::new();
    for code in ["069500", "005930", "035420", "005930"] {
        desired.subscribe(&symbol(code));
    }
    let codes: Vec<String> = desired.symbols().iter().map(|s| s.as_str().to_string()).collect();
    assert_eq!(codes, vec!["005930", "035420", "069500"]);
}

#[test]
fn ccld_row_maps_to_execution_report() {
    let row = CcldRow {
        pdno: Some("005930".into()),
        ord_qty: Some("10".into()),
        tot_ccld_qty: Some("10".into()),
        cncl_yn: Some("N".into()),
        tot_ccld_amt: Some("790000".into()),
        sll_buy_dvsn_cd: Some("02".into()),
        ord_dvsn_cd: Some("00".into()),
    };
    let report = execution_report_from_row("00001234", "c-1", &row, 0).unwrap();
    assert_eq!(report.order_quantity, 10);
    assert_eq!(report.filled_quantity, 10);
    assert_eq!(report.average_fill_price.map(|p| rd(&p)), Some(Decimal::from(79_000)));
    assert!(!report.open);
    assert_eq!(report.side, OrderSide::Buy);
    assert_eq!(report.order_type, OrderType::Limit);

    let broken = CcldRow {
        pdno: Some("005930".into()),
        ord_qty: None,
        tot_ccld_qty: None,
        cncl_yn: None,
        tot_ccld_amt: None,
        sll_buy_dvsn_cd: None,
        ord_dvsn_cd: None,
    };
    let error = execution_report_from_row("x", "c", &broken, 0).unwrap_err();
    assert!(error.message.contains("ord_qty"));
}

#[test]
fn account_number_splits_eight_and_two() {
    let (cano, prdt) = parse_account_number("12345678-01").unwrap();
    assert_eq!((cano.as_str(), prdt.as_str()), ("12345678", "01"));
    assert!(parse_account_number("1234").is_err());
}

#[test]
fn order_request_maps_to_the_official_body() {
    let request = OrderRequest {
        client_order_id: "c-1".into(),
        symbol: symbol("005930"),
        side: OrderSide::Buy,
        order_type: OrderType::Limit,
        quantity: 10,
        limit_price: Some(Dec::from_i64(79_000)),
    };
    let body = order_body("12345678", "01", &request);
    let fields: Vec<(&str, &str)> = body.iter().map(|(k, v)| (*k, v.as_str())).collect();
    assert_eq!(
        fields,
        vec![
            ("CANO", "12345678"),
            ("ACNT_PRDT_CD", "01"),
            ("PDNO", "005930"),
            ("ORD_DVSN", "00"),
            ("ORD_QTY", "10"),
            ("ORD_UNPR", "79000"),
            ("EXCG_ID_DVSN_CD", "KRX"),
            ("SLL_TYPE", ""),
            ("CNDT_PRIC", ""),
        ]
    );
    assert_eq!(order_tr_id("real", OrderSide::Buy), "TTTC0012U");
    assert_eq!(order_tr_id("mock", OrderSide::Sell), "VTTC0011U");
    assert_eq!(kis_base_url("real"), "https://openapi.koreainvestment.com:9443");
}

#[test]
fn balance_rows_keep_held_positions() {
    let rows = vec![
        BalanceRow { hldg_qty: Some("10".into()), pdno: Some("005930".into()), pchs_avg_pric: Some("79000.5".into()) },
        BalanceRow { hldg_qty: Some("0".into()), pdno: Some("035420".into()), pchs_avg_pric: Some("1".into()) },
    ];
    let positions = positions_from_rows(&rows).unwrap();
    assert_eq!(positions.len(), 1);
    assert_eq!(positions[0].symbol.as_str(), "005930");
    assert_eq!(rd(&positions[0].average_price), Decimal::from_str("79000.5").unwrap());
    let bad = vec![BalanceRow { hldg_qty: Some("3".into()), pdno: Some("AAPL".into()), pchs_avg_pric: None }];
    assert!(positions_from_rows(&bad).is_err());
}

#[test]
fn token_answers_are_classified_and_cached() {
    assert!(classify_token_status(200, "OK").is_none());
    assert!(classify_token_status(401, "Unauthorized").is_some());
    let token = token_from_body(Some("token-1".into()), Some("2099-01-01 10:00:00".into())).unwrap();
    let mut cache = TokenCache::new();
    assert!(cache.fresh_token(0).is_none());
    cache.store(token);
    assert_eq!(cache.fresh_token(0).as_deref(), Some("token-1"));
    cache.invalidate();
    assert!(cache.fresh_token(0).is_none());
}

fn day(y: i32, m: u32, d: u32) -> i64 {
    (NaiveDate::from_ymd_opt(y, m, d).unwrap() - NaiveDate::from_ymd_opt(1970, 1, 1).unwrap()).num_days()
}

#[test]
fn long_ranges_walk_hundred_day_windows() {
    let windows = plan_windows(day(2025, 1, 1), day(2025, 9, 7));
    let bounds: Vec<(i64, i64)> = windows.iter().map(|w| (w.start, w.end)).collect();
    assert_eq!(
        bounds,
        vec![
            (day(2025, 1, 1), day(2025, 4, 10)),
            (day(2025, 4, 11), day(2025, 7, 19)),
            (day(2025, 7, 20), day(2025, 9, 7)),
        ]
    );
    assert!(plan_windows(day(2025, 2, 1), day(2025, 1, 1)).is_empty());
}

#[test]
fn full_pages_split_at_the_middle() {
    let window = ChartWindow { start: day(2025, 1, 1), end: day(2025, 4, 10), depth: 0 };
    let (a, b) = page_split(window, 100).unwrap();
    assert_eq!((a.start, a.end, a.depth), (day(2025, 1, 1), day(2025, 2, 19), 1));
    assert_eq!((b.start, b.end, b.depth), (day(2025, 2, 20), day(2025, 4, 10), 1));
    assert!(page_split(window, 99).is_none());
    assert!(page_split(ChartWindow { depth: 6, ..window }, 100).is_none());
}

fn daily(code: &str, ts: i64, close: i64) -> Bar {
    let price = Dec::from_i64(close);
    bar(&symbol(code), ts, price, price, price, price, 1)
}

#[test]
fn merge_sorts_dedups_and_trims() {
    let bars = vec![daily("005930", 30, 3), daily("005930", 10, 1), daily("005930", 30, 9), daily("005930", 50, 5)];
    let merged = merge_bars(&bars, 10, 40);
    let got: Vec<(i64, Decimal)> = merged.iter().map(|b| (b.timestamp, rd(&b.close))).collect();
    assert_eq!(got, vec![(10, Decimal::from(1)), (30, Decimal::from(3))]);
    assert_eq!(page_bars(&bars).len(), 3);
}

#[test]
fn fetch_walk_splits_full_pages_and_keeps_the_rest() {
    let mut fetch = ChartFetch::new(day(2025, 1, 1), day(2025, 4, 10));
    let window = fetch.next_window().unwrap();
    let full: Vec<Bar> = (0..100).map(|i| daily("005930", i, 1)).collect();
    fetch.record_page(window, full);
    let second = fetch.next_window().unwrap();
    assert_eq!(second.start, day(2025, 2, 20));
    fetch.record_page(second, vec![daily("005930", 7, 2)]);
    let first = fetch.next_window().unwrap();
    assert_eq!(first.end, day(2025, 2, 19));
    fetch.record_page(first, vec![daily("005930", 3, 1)]);
    assert!(fetch.next_window().is_none());
    let got: Vec<i64> = fetch.finish(0, 100).iter().map(|b| b.timestamp).collect();
    assert_eq!(got, vec![3, 7]);
}

#[test]
fn chart_rows_parse_or_fail_loud() {
    let row = ChartRow {
        stck_bsop_date: Some("20250102".into()),
        stck_oprc: Some("100".into()),
        stck_hgpr: Some("110".into()),
        stck_lwpr: Some("90".into()),
        stck_clpr: Some("105".into()),
        acml_vol: Some("1234".into()),
    };
    let parsed = parse_chart_row(&symbol("005930"), &row, "{}").unwrap();
    assert_eq!(rfc3339(parsed.timestamp), "2025-01-02T06:30:00+00:00");
    assert_eq!(rd(&parsed.close), Decimal::from(105));
    assert_eq!(parsed.volume, 1234);

    let missing = ChartRow { stck_clpr: None, ..row.clone() };
    match parse_chart_row(&symbol("005930"), &missing, "{\"x\":1}").unwrap_err() {
        MarketDataError::Source(m) => assert_eq!(m, "bar row missing field \"stck_clpr\": {\"x\":1}"),
    }
    let bad_volume = ChartRow { acml_vol: Some("many".into()), ..row };
    match parse_chart_row(&symbol("005930"), &bad_volume, "{}").unwrap_err() {
        MarketDataError::Source(m) => assert!(m.starts_with("bad acml_vol: ")),
    }
}

#[test]
fn chart_query_carries_the_window() {
    let query = chart_query(&symbol("005930"), day(2025, 1, 1), day(2025, 4, 10), "0");
    let fields: Vec<(&str, &str)> = query.iter().map(|(k, v)| (*k, v.as_str())).collect();
    assert_eq!(fields[2], ("FID_INPUT_DATE_1", "20250101"));
    assert_eq!(fields[3], ("FID_INPUT_DATE_2", "20250410"));
    assert_eq!(utc_day(-1), -1);
    assert_eq!(utc_day(86_400_000_000_000), 1);
}

#[test]
fn ranking_rows_map_and_fail_loud() {
    let rows = vec![
        RankRow {
            mksc_shrn_iscd: Some("005930".into()),
            stck_shrn_iscd: None,
            hts_kor_isnm: Some("삼성전자".into()),
            acml_tr_pbmn: Some("1200000000000".into()),
            text: String::new(),
        },
        RankRow {
            mksc_shrn_iscd: None,
            stck_shrn_iscd: Some("000660".into()),
            hts_kor_isnm: None,
            acml_tr_pbmn: Some("n/a".into()),
            text: String::new(),
        },
    ];
    let ranked = ranked_symbols(&rows, 10).unwrap();
    assert_eq!(ranked.len(), 2);
    assert_eq!(ranked[0].code, "005930");
    assert_eq!(ranked[0].name, "삼성전자");
    assert_eq!(ranked[0].traded_value, 1_200_000_000_000);
    assert_eq!(ranked[1].traded_value, 0);
    assert_eq!(ranked_symbols(&rows, 1).unwrap().len(), 1);

    let unknown = vec![RankRow {
        mksc_shrn_iscd: None,
        stck_shrn_iscd: None,
        hts_kor_isnm: None,
        acml_tr_pbmn: None,
        text: "{\"unexpected\":\"shape\"}".into(),
    }];
    let error = ranked_symbols(&unknown, 10).unwrap_err();
    assert!(error.contains("실증 대기"), "got: {error}");
}

#[test]
fn business_rejection_is_classified_and_never_retried() {
    assert!(matches!(classify_status(200, false), StatusAction::Proceed));
    assert!(matches!(classify_status(401, false), StatusAction::Reissue));
    match classify_status(403, true) {
        StatusAction::Fail(e) => {
            assert_eq!(e.kind, ApiErrorKind::Auth);
            assert_eq!(e.message, "token rejected after re-issue");
        }
        _ => panic!("a second refusal fails"),
    }
    match classify_status(503, false) {
        StatusAction::Fail(e) => assert_eq!((e.kind, e.message.as_str()), (ApiErrorKind::Server, "server error 503")),
        _ => panic!("server errors fail"),
    }
    match classify_status(404, false) {
        StatusAction::Fail(e) => assert_eq!((e.kind, e.message.as_str()), (ApiErrorKind::Malformed, "unexpected status 404")),
        _ => panic!("other statuses fail"),
    }
    match classify_status(429, false) {
        StatusAction::Fail(e) => assert_eq!(e.kind, ApiErrorKind::RateLimited),
        _ => panic!("rate limits fail"),
    }
    let payload: Value = serde_json::from_str(r#"{"rt_cd":"1","msg_cd":"APBK0919","msg1":"주문 거부"}"#).unwrap();
    let rejected = body_verdict(
        &ResultCode::Text("1".to_string()),
        &payload["rt_cd"].to_string(),
        &payload["msg_cd"].to_string(),
        &payload["msg1"].to_string(),
        Some("APBK0919".to_string()),
    )
    .unwrap();
    assert_eq!(rejected.kind, ApiErrorKind::ApiReject);
    assert_eq!(rejected.message, "KIS rejected: rt_cd=\"1\" msg_cd=\"APBK0919\" msg1=\"주문 거부\"");
    assert_eq!(rejected.msg_cd.as_deref(), Some("APBK0919"));
    assert!(body_verdict(&ResultCode::Text("0".to_string()), "", "", "", None).is_none());
    assert!(body_verdict(&ResultCode::Absent, "", "", "", None).is_none());
    assert!(body_verdict(&ResultCode::Other, "0", "", "", None).is_some());
}

#[test]
fn quote_parses_stck_prpr() {
    assert_eq!(rd(&quote_price(Some("71500".to_string())).unwrap()), Decimal::from(71_500));
    let missing = quote_price(None).unwrap_err();
    assert_eq!((missing.kind, missing.message.as_str()), (ApiErrorKind::Malformed, "inquire-price missing stck_prpr"));
    assert_eq!(quote_price(Some("n/a".to_string())).unwrap_err().message, "stck_prpr not a number: n/a");
}

#[test]
fn balance_pagination_follows_tr_cont() {
    assert!(balance_continues(Some("M")));
    assert!(balance_continues(Some("F")));
    assert!(!balance_continues(Some("D")));
    assert!(!balance_continues(Some("E")));
    assert!(!balance_continues(None));
    assert_eq!(account_tr_id("real", "TTTC8434R", "VTTC8434R"), "TTTC8434R");
    assert_eq!(account_tr_id("mock", "TTTC8434R", "VTTC8434R"), "VTTC8434R");
}

#[test]
fn order_numbers_come_from_odno() {
    assert_eq!(order_number(Some("0000117057".to_string())).unwrap(), "0000117057");
    assert_eq!(order_number(Some(String::new())).unwrap_err().message, "order-cash response missing output.ODNO");
    assert_eq!(order_number(None).unwrap_err().kind, ApiErrorKind::Malformed);
}

#[test]
fn approval_key_uses_secretkey_field() {
    let body = approval_request_body("app", "secret");
    let fields: Vec<(&str, &str)> = body.iter().map(|(k, v)| (*k, v.as_str())).collect();
    assert_eq!(fields, vec![("grant_type", "client_credentials"), ("appkey", "app"), ("secretkey", "secret")]);
    assert_eq!(approval_key_from(Some("key-1".to_string())).unwrap(), "key-1");
    assert_eq!(approval_key_from(Some(String::new())).unwrap_err(), "approval key missing from response");
    assert_eq!(approval_key_from(None).unwrap_err(), "approval key missing from response");
}

#[test]
fn reconnect_backoff_caps_at_thirty_seconds() {
    let delays = reconnect_delays_secs();
    assert_eq!(delays, vec![1, 2, 4, 8, 16, 30]);
    let mut index = 0usize;
    let mut seen = Vec::new();
    for _ in 0..8 {
        seen.push(delays[index]);
        index = next_delay_index(index, delays.len());
    }
    assert_eq!(seen, vec![1, 2, 4, 8, 16, 30, 30, 30]);
}

#[test]
fn volume_rank_request_carries_the_risk_filters() {
    let query = screener_query();
    assert!(query.contains(&("FID_COND_SCR_DIV_CODE", "20171")));
    assert!(query.contains(&("FID_BLNG_CLS_CODE", "3")));
    assert!(query.contains(&("FID_TRGT_EXLS_CLS_CODE", "1111110101")));
    assert!(query.contains(&("FID_INPUT_PRICE_1", "2000")));
    assert!(query.contains(&("FID_INPUT_PRICE_2", "1000000")));
}

#[test]
fn balance_paging_follows_tr_cont_up_to_the_limit() {
    let next = balance_next_page(0, Some("M"), "fk1", "nk1").unwrap();
    assert_eq!(next, ("fk1".to_string(), "nk1".to_string(), "N".to_string()));
    assert!(balance_next_page(0, Some("D"), "a", "b").is_none());
    assert!(balance_next_page(3, None, "a", "b").is_none());
    assert!(balance_next_page(18, Some("F"), "a", "b").is_some());
    assert!(balance_next_page(19, Some("F"), "a", "b").is_none());
}

use lossfunction::analysis::{glm_status_error, json_candidate, GlmError, GlmErrorKind, Regime};
use lossfunction::backtest::BacktestConfig;
use lossfunction::broker::{ExecutionReport, Position};
use lossfunction::decimal::Dec;
use lossfunction::domain::order::OrderStatus;
use lossfunction::runtime::backfill::{backfill_report, status_line, BackfillStatus};
use lossfunction::runtime::control::{backfill_years, backtest_symbols, backtest_years, edit_watchlist, kill_reason, BacktestConfigOverrides};
use lossfunction::runtime::session::{order_id, rebuild_portfolio, report_fill, still_working, sync_reason, sync_step, SyncStep};
use lossfunction::runtime::demo::{demo_market, entry_prices, DemoRng};
use lossfunction::runtime::backfill::{backfill_base_url, BackfillCredentials};
use lossfunction::runtime::rows::{candle_row, close_range, fill_row, order_row, position_row, watch_rising, watch_row};
use lossfunction::runtime::web::{
    esc, freshness_class, kill_badge, krw_int, money, overview_figures, pnl_span, position_figures, status_pill,
    symbol_label, symbol_name, table, uptime_text,
};
use lossfunction::storage::StoredPosition;
use lossfunction::types::{OrderSide, OrderType, Symbol};
use rust_decimal::Decimal;
use std::str::FromStr;

fn rd(d: &Dec) -> Decimal {
    Decimal::from_i128_with_scale(d.mantissa(), d.scale())
}

fn dec(text: &str) -> Dec {
    let d = Decimal::from_str(text).unwrap();
    Dec::from_parts(d.mantissa(), d.scale()).unwrap()
}

fn symbol(code: &str) -> Symbol {
    Symbol::parse(code).unwrap()
}

#[test]
fn db_values_are_escaped() {
    assert_eq!(esc("<script>alert(1)</script>"), "&lt;script&gt;alert(1)&lt;/script&gt;");
    assert_eq!(esc("x&y"), "x&amp;y");
    assert_eq!(esc("\"'"), "&quot;&#x27;");
    let escaped = esc("<b>evil</b>");
    assert!(!escaped.contains('<') && !escaped.contains('>'));
}

#[test]
fn money_trims_only_fractional_zeros() {
    assert_eq!(money(&Some(dec("80.0000"))), "80");
    assert_eq!(money(&Some(dec("80000"))), "80000");
    assert_eq!(money(&Some(dec("80.5000"))), "80.5");
    assert_eq!(money(&None), "—");
}

#[test]
fn krw_groups_thousands_and_signs() {
    assert_eq!(krw_int(&dec("12345678")), "12,345,678");
    assert_eq!(krw_int(&dec("900000")), "900,000");
    assert_eq!(krw_int(&dec("-1234.6")), "-1,235");
    assert_eq!(krw_int(&dec("999")), "999");
    assert_eq!(pnl_span(&dec("100000")), "<span class=\"pnl up\">+100,000원</span>");
    assert_eq!(pnl_span(&dec("-2500")), "<span class=\"pnl down\">2,500원</span>");
}

#[test]
fn freshness_follows_day_fields() {
    let now = "2026-09-20 10:00:00 UTC";
    assert_eq!(freshness_class("2026-09-19T06:30:00+00:00", now), "fresh");
    assert_eq!(freshness_class("2026-09-01T06:30:00+00:00", now), "stale");
    assert_eq!(freshness_class("2026-07-01T06:30:00+00:00", now), "old");
    assert_eq!(freshness_class("garbage", now), "old");
}

#[test]
fn symbol_names_render_with_fallback() {
    assert_eq!(symbol_label("005930"), r#"<a href="/symbol/005930">삼성전자 <small>005930</small></a>"#);
    assert_eq!(symbol_label("999999"), r#"<a href="/symbol/999999">999999</a>"#);
    assert_eq!(symbol_name("069500"), Some("KODEX 200"));
    assert_eq!(symbol_name("000000"), None);
}

#[test]
fn kill_badge_reflects_state() {
    let on = kill_badge(true, Some("manual halt"));
    assert!(on.contains("KILL ·"));
    assert!(on.contains("manual halt"));
    assert!(kill_badge(false, None).contains("toggleKill(true)"));
    assert_eq!(status_pill("filled"), r#"<span class="pill filled">filled</span>"#);
    assert_eq!(status_pill("<x>"), r#"<span class="pill ">&lt;x&gt;</span>"#);
}

#[test]
fn summary_cards_state_the_story() {
    let positions = vec![StoredPosition { symbol: "005930".into(), quantity: 10, average_price: Dec::from_i64(80_000) }];
    let prices = vec![("005930".to_string(), Dec::from_i64(90_000))];
    let figures = overview_figures(&positions, &prices).unwrap();
    assert_eq!(krw_int(&figures.value_total), "900,000");
    assert_eq!(pnl_span(&figures.unrealized), "<span class=\"pnl up\">+100,000원</span>");
    assert_eq!(rd(&figures.unrealized_pct).to_string(), "12.50");
    assert_eq!(uptime_text(7_200), "2시간 0분");
    assert_eq!(uptime_text(59), "0분");

    let row = position_figures(&positions[0], &prices).unwrap();
    assert_eq!(rd(&row.value), Decimal::from(900_000));
    assert_eq!(rd(&row.pnl), Decimal::from(100_000));
    assert!(row.rising);
    assert_eq!(row.pnl_pct.map(|p| rd(&p).to_string()).as_deref(), Some("12.50"));
}

#[test]
fn data_section_renders_freshness_and_backfill_state() {
    let done = BackfillStatus::Done {
        at: "2026-09-20 10:00:00 UTC".into(),
        summary: "3711 bars stored, 0/3 symbols failed".into(),
    };
    assert_eq!(
        status_line("백필", &done),
        "백필 완료 2026-09-20 10:00:00 UTC — 3711 bars stored, 0/3 symbols failed"
    );
    assert_eq!(status_line("백테스트", &BackfillStatus::Idle), "백테스트: 대기");
    assert_eq!(done.label(), "done");
    assert_eq!(BackfillStatus::Running.label(), "running");
}

#[test]
fn backfill_reason_is_escaped() {
    let failed = BackfillStatus::Failed { at: "2026-09-20 10:00:00 UTC".into(), reason: "<script>x</script>".into() };
    let line = esc(&status_line("백필", &failed));
    assert!(!line.contains("<script>x"), "unescaped reason leaked");
    assert!(line.contains("&lt;script&gt;"));
}

#[test]
fn backfill_report_counts_and_details() {
    let outcomes = vec![(symbol("005930"), Ok(10u64)), (symbol("035420"), Err("timeout".to_string()))];
    assert_eq!(backfill_report(&outcomes).unwrap_err(), "10 bars stored, 1/2 symbols failed\n035420: timeout");
    let ok = vec![(symbol("005930"), Ok(3u64))];
    assert_eq!(backfill_report(&ok).unwrap(), "3 bars stored, 0/1 symbols failed");
}

#[test]
fn control_requests_are_bounded() {
    assert_eq!(backfill_years(Some(51)), 5);
    assert_eq!(backfill_years(Some(50)), 50);
    assert_eq!(backtest_years(Some(31)), 5);
    assert_eq!(backtest_years(None), 5);
    assert_eq!(kill_reason(None), "manual (web)");
    assert_eq!(kill_reason(Some("x".repeat(250))).chars().count(), 200);
    let watchlist = vec![symbol("005930")];
    assert_eq!(backtest_symbols(None, &watchlist).unwrap()[0].as_str(), "005930");
    assert!(backtest_symbols(Some(vec!["nope".into()]), &watchlist).is_err());
    assert_eq!(backtest_symbols(Some(vec!["035420".into()]), &watchlist).unwrap()[0].as_str(), "035420");
}

#[test]
fn backtest_config_overrides_apply_and_validate() {
    let overrides = BacktestConfigOverrides {
        initial_cash: Some(50_000_000),
        commission_pct: Some(dec("0.02")),
        tax_pct: Some(dec("0.0002")),
        history_capacity: Some(30),
    };
    let config = overrides.apply(BacktestConfig::default_config()).unwrap();
    assert_eq!(rd(&config.initial_cash), Decimal::from(50_000_000));
    assert_eq!(rd(&config.commission_rate), Decimal::from_str("0.0002").unwrap());
    assert_eq!(rd(&config.tax_rate), Decimal::from_str("0.000002").unwrap());
    assert_eq!(config.history_capacity, 30);

    let negative = BacktestConfigOverrides { initial_cash: Some(-1), commission_pct: None, tax_pct: None, history_capacity: None };
    assert!(negative.apply(BacktestConfig::default_config()).is_err(), "negative cash must be refused");
    let too_much = BacktestConfigOverrides { initial_cash: None, commission_pct: Some(dec("1.5")), tax_pct: None, history_capacity: None };
    assert_eq!(too_much.apply(BacktestConfig::default_config()).unwrap_err(), "commission_pct out of range (0 .. 1)");
}

#[test]
fn glm_replies_are_classified() {
    assert!(glm_status_error(200).is_none());
    let auth = glm_status_error(401).unwrap();
    assert_eq!(auth.kind, GlmErrorKind::Auth);
    assert_eq!(auth.message, "rejected: 401 Unauthorized");
    let server = glm_status_error(503).unwrap();
    assert_eq!(server.kind, GlmErrorKind::Server);
    assert_eq!(server.message, "server error 503");
    assert_eq!(glm_status_error(404).unwrap().kind, GlmErrorKind::Empty);
    assert_eq!(GlmError::schema("bad").text(), "SchemaViolation: bad");
    assert_eq!(Regime::TrendingUp.as_str(), "trending_up");
}

#[test]
fn fenced_json_accepted() {
    assert_eq!(json_candidate("```json\n{\"a\": 1}\n```"), "{\"a\": 1}");
    assert_eq!(json_candidate("  {\"a\": 1}  "), "{\"a\": 1}");
    assert_eq!(json_candidate("```\n[1]\n```"), "[1]");
}

#[test]
fn session_order_ids_are_padded() {
    assert_eq!(order_id("ord", 7), "ord-0007");
    assert_eq!(order_id("sim", 12345), "sim-12345");
}

fn report(filled: i64, open: bool) -> ExecutionReport {
    ExecutionReport {
        broker_order_id: "B-1".into(),
        client_order_id: "c-1".into(),
        symbol: symbol("005930"),
        side: OrderSide::Buy,
        order_type: OrderType::Market,
        order_quantity: 10,
        filled_quantity: filled,
        average_fill_price: if filled > 0 { Some(Dec::from_i64(80_000)) } else { None },
        open,
        timestamp: 0,
    }
}

#[test]
fn sync_steps_follow_status() {
    assert_eq!(sync_step(OrderStatus::Submitted), SyncStep::FetchReport);
    assert_eq!(sync_step(OrderStatus::Unknown), SyncStep::Reconcile);
    assert_eq!(sync_step(OrderStatus::Filled), SyncStep::Keep);
    assert!(still_working(OrderStatus::PartiallyFilled));
    assert!(!still_working(OrderStatus::Cancelled));
    assert_eq!(sync_reason(&report(4, true)), "execution sync: filled 4/10 open=true");
    let fill = report_fill("c-1", Some(OrderStatus::Filled), &report(10, false)).unwrap();
    assert_eq!(fill.quantity, 10);
    assert!(report_fill("c-1", Some(OrderStatus::Submitted), &report(10, false)).is_none());
    assert!(report_fill("c-1", Some(OrderStatus::Filled), &report(0, false)).is_none());
}

#[test]
fn restart_rebuilds_book_from_broker_positions() {
    let positions = vec![
        Position { symbol: symbol("005930"), quantity: 10, average_price: Dec::from_i64(80_000) },
        Position { symbol: symbol("035420"), quantity: 0, average_price: Dec::from_i64(1) },
    ];
    let book = rebuild_portfolio(&positions);
    let held = book.positions();
    assert_eq!(held.len(), 1);
    assert_eq!(held[0].quantity, 10);
    assert_eq!(rd(&held[0].average_price), Decimal::from(80_000));
}

#[test]
fn demo_is_deterministic() {
    let mut a = DemoRng::new(42);
    let mut b = DemoRng::new(42);
    let mut c = DemoRng::new(43);
    let xs: Vec<u64> = (0..5).map(|_| a.next_bits()).collect();
    let ys: Vec<u64> = (0..5).map(|_| b.next_bits()).collect();
    let zs: Vec<u64> = (0..5).map(|_| c.next_bits()).collect();
    assert_eq!(xs, ys);
    assert_ne!(xs, zs);
    assert!(xs.iter().all(|x| *x < (1u64 << 53)));
}

#[test]
fn demo_entries_sit_half_a_percent_under_the_start() {
    let market = demo_market();
    assert_eq!(market.len(), 3);
    let table = entry_prices().expect("entries fit");
    let first = table.get(&market[0].0).expect("first symbol has an entry");
    assert_eq!(rd(first), Decimal::from(79_600));
    let second = table.get(&market[1].0).expect("second symbol has an entry");
    assert_eq!(rd(second), Decimal::from_str("40795").unwrap());
}

#[test]
fn backfill_url_prefers_the_override() {
    let mut creds = BackfillCredentials {
        environment: "mock".to_string(),
        app_key: "k".to_string(),
        app_secret: "s".to_string(),
        account: "a".to_string(),
        base_url_override: Some("http://127.0.0.1:9".to_string()),
    };
    assert_eq!(backfill_base_url(&creds), "http://127.0.0.1:9");
    creds.base_url_override = None;
    assert_eq!(backfill_base_url(&creds), "https://openapivts.koreainvestment.com:9443");
}

#[test]
fn table_escapes_headers_and_right_aligns_later_columns() {
    let headers = vec!["a<b", "qty"];
    let rows = vec![vec!["x".to_string(), "1".to_string()]];
    assert_eq!(
        table(&headers, &rows),
        "<table><thead><tr><th>a&lt;b</th><th class=\"num\">qty</th></tr></thead><tbody><tr><td>x</td><td class=\"num\">1</td></tr></tbody></table>"
    );
    assert_eq!(table(&headers, &Vec::new()), "<p class=\"empty\">(no rows)</p>");
}

#[test]
fn page_rows_render_each_cell() {
    let order = order_row("05-01 09:00:00", "005930", "sell", 3, &Some(dec("79000.50")), "filled");
    assert_eq!(
        order,
        vec![
            "05-01 09:00:00".to_string(),
            "<a href=\"/symbol/005930\">삼성전자 <small>005930</small></a>".to_string(),
            "<span class=\"side-sell\">매도</span>".to_string(),
            "3".to_string(),
            "79000.5".to_string(),
            "<span class=\"pill filled\">filled</span>".to_string(),
        ]
    );
    let fill = fill_row("t", "123456", "buy", 2, &dec("1500.5"));
    assert_eq!(fill[1], "<a href=\"/symbol/123456\">123456</a>");
    assert_eq!(fill[2], "<span class=\"side-buy\">매수</span>");
    assert_eq!(fill[5], "3,001");

    let position = StoredPosition { symbol: "005930".into(), quantity: 10, average_price: Dec::from_i64(80_000) };
    let prices = vec![("005930".to_string(), Dec::from_i64(81_000))];
    let row = position_row(&position, &prices, "~");
    assert_eq!(row[1], "~");
    assert_eq!(row[4], "81000");
    assert_eq!(row[5], "810000");
    assert_eq!(row[6], "<span class=\"pnl up\">+10,000원</span> <small>(1.25%)</small>");

    let candle = candle_row("005930", "2026-05-01", "2026-05-03 10:00:00 UTC");
    assert_eq!(candle[1], "2026-05-01 <span class=\"fresh-pill fresh\">최신</span>");

    assert!(watch_rising(&Some(Dec::from_i64(81_000)), Some(800_000_000)));
    assert!(!watch_rising(&Some(Dec::from_i64(79_000)), Some(800_000_000)));
    let watch = watch_row("005930", &None, None, "2026-05-03", "-");
    assert_eq!(watch[1], "—");
    assert_eq!(watch[2], "<span class=\"fresh-pill old\">봉 없음</span>");
    assert_eq!(watch[4], "<button onclick=\"wlRemove('005930')\">제거</button>");
}

#[test]
fn close_range_spans_the_closes() {
    assert!(close_range(&Vec::new()).is_none());
    let closes = vec![dec("100"), dec("120.5"), dec("95"), dec("110")];
    let (high, low) = close_range(&closes).unwrap();
    assert_eq!(rd(&high), Decimal::from_str("120.5").unwrap());
    assert_eq!(rd(&low), Decimal::from(95));
}

#[test]
fn watchlist_edits_add_once_and_remove_all() {
    let s = |c: &str| Symbol::parse(c).unwrap();
    let codes = |v: &Vec<Symbol>| v.iter().map(|x| x.as_str().to_string()).collect::<Vec<_>>();
    let list = vec![s("005930"), s("035420")];
    assert_eq!(codes(&edit_watchlist(&list, "add", &s("069500")).unwrap()), vec!["005930", "035420", "069500"]);
    assert_eq!(codes(&edit_watchlist(&list, "add", &s("005930")).unwrap()), vec!["005930", "035420"]);
    assert_eq!(codes(&edit_watchlist(&list, "remove", &s("005930")).unwrap()), vec!["035420"]);
    assert_eq!(codes(&edit_watchlist(&list, "remove", &s("111111")).unwrap()), vec!["005930", "035420"]);
    assert!(edit_watchlist(&list, "rename", &s("005930")).is_none());
}

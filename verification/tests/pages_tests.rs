use lossfunction::decimal::Dec;
use lossfunction::marketdata::{Bar, Timeframe};
use lossfunction::runtime::backfill::BackfillStatus;
use lossfunction::runtime::pages::{layout, render_overview, render_symbol_page, render_watchlist_page, FillLine, StatusPage};
use lossfunction::storage::StoredPosition;
use lossfunction::types::Symbol;

fn page() -> StatusPage {
    StatusPage {
        trading_mode: "live".to_string(),
        broker: "kis<b>".to_string(),
        database_path: "/data/lf.db".to_string(),
        kill_switch: false,
        kill_reason: None,
        now_utc: "2024-01-02 09:00:00 UTC".to_string(),
        positions: vec![StoredPosition { symbol: "005930".to_string(), quantity: 10, average_price: Dec::from_i64(70_000) }],
        latest_prices: vec![("005930".to_string(), Dec::from_i64(71_000))],
        fills: vec![FillLine {
            at: "01-02 09:00:00".to_string(),
            symbol: "005930".to_string(),
            side: "buy".to_string(),
            quantity: 10,
            price: Dec::from_i64(70_000),
        }],
        candle_dates: vec![("005930".to_string(), "2024-01-02".to_string())],
        watchlist: vec!["005930".to_string()],
        strategy_label: "sma-cross".to_string(),
        uptime_seconds: 3_700,
        screen: BackfillStatus::Idle,
    }
}

#[test]
fn overview_escapes_stored_text_and_marks_the_tab() {
    let html = render_overview(&page(), &vec!["<svg/>".to_string()]);
    assert!(html.contains("kis&lt;b&gt;"));
    assert!(!html.contains("kis<b>"));
    assert!(html.contains(r#"<a href="/" class="active">개요</a>"#));
    assert!(html.contains(r#"<span class="mode live">live</span>"#));
    assert!(html.contains("<svg/>"));
    assert!(html.contains("<h2>보유 포지션</h2>"));
    assert!(html.starts_with("<!doctype html>"));
}

#[test]
fn watchlist_lists_each_symbol_with_remove_button() {
    let html = render_watchlist_page(&page(), &Vec::new());
    assert!(html.contains("wlRemove('005930')"));
    assert!(html.contains(r#"<a href="/watchlist" class="active">워치리스트</a>"#));
    assert!(html.contains("스크리너"));
}

#[test]
fn symbol_page_dates_and_empty_case() {
    let bar = Bar {
        symbol: Symbol::parse("005930").unwrap(),
        timeframe: Timeframe::Day,
        timestamp: 1_704_153_600_000_000_000,
        open: Dec::from_i64(70_000),
        high: Dec::from_i64(72_000),
        low: Dec::from_i64(69_000),
        close: Dec::from_i64(71_000),
        volume: 1_234,
    };
    let html = render_symbol_page("005930", &vec![bar], Some(Dec::from_i64(71_000)), "<svg/>");
    assert!(html.contains("<td>2024-01-02 ~ 2024-01-02</td>"));
    assert!(html.contains("<td>1234</td>"));
    assert!(html.contains("<title>005930 · 삼성전자</title>"));
    let empty = render_symbol_page("005930", &Vec::new(), None, "");
    assert!(empty.contains("저장된 일봉이 없습니다"));
    assert!(empty.contains("현재가 —"));
}

#[test]
fn layout_without_live_mode_has_no_live_class() {
    let html = layout("t", "lab", "paper", true, Some("x"), "C", "M");
    assert!(html.contains(r#"<span class="mode">paper</span>"#));
    assert!(html.contains(r#"<a href="/lab" class="active">실험실</a>"#));
}

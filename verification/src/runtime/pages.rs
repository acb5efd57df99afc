//! The operator pages served at `/`: the shared chrome (tabs, mode,
//! kill control), the overview and the watchlist. Every text that comes
//! from storage or configuration is HTML-escaped; trend markup arrives
//! already drawn.

use vstd::prelude::*;
use crate::decimal::{Dec, decimal_text};
use crate::runtime::backfill::{BackfillStatus, status_line, status_line_text};
use crate::runtime::rows::{cell_texts, fill_cells, fill_row, position_cells, position_row, watch_cells, watch_row};
use crate::runtime::web::{
    escaped, esc, kill_badge, kill_badge_text, krw_int, krw_text, overview_figures, overview_spec, pnl_span,
    pnl_span_text, row_views, str_views, table, table_text, uptime_spec, uptime_text,
};
use crate::storage::StoredPosition;
use crate::marketdata::Bar;
use crate::kis::chart::{CE_DAY_OF_EPOCH, day_text, day_ymd, utc_day, utc_day_of};
use crate::runtime::rows::{close_range, money_text, range_fold};
use crate::runtime::web::{known_name, money, symbol_name};
use crate::text::{i64_text, int_text};
use crate::text::{nat_digits, text_equal, u64_text};

verus! {

pub const STYLE: &'static str = r#"
:root { --bg:#0d1017; --panel:#141924; --panel2:#181f2c; --line:#242c3b;
        --text:#dbe2ec; --dim:#7b8494; --accent:#6ea8ff; --up:#8fd694;
        --down:#ff9c9c; --warn:#e2b93b; }
* { box-sizing: border-box; }
body { font-family:-apple-system,'Segoe UI',Roboto,sans-serif; background:var(--bg);
       color:var(--text); margin:0; padding:0 0 48px; font-size:14px; }
a { color:var(--accent); text-decoration:none; } a:hover { text-decoration:underline; }
.topbar { position:sticky; top:0; z-index:10; background:rgba(13,16,23,.92);
          border-bottom:1px solid var(--line); padding:0 28px; display:flex;
          align-items:center; gap:22px; height:52px; }
.brand { font-weight:700; font-size:15px; letter-spacing:.02em; }
.brand .mode { font-size:11px; padding:2px 8px; border-radius:4px; background:#234;
               color:#9fc3ff; vertical-align:middle; margin-left:8px; }
.brand .mode.live { background:#5a1f1f; color:#ff9c9c; }
.nav { display:flex; gap:4px; }
.nav a { color:var(--dim); padding:6px 12px; border-radius:6px; font-size:13px; }
.nav a.active { color:var(--text); background:var(--panel2); }
.topbar .kill { margin-left:auto; font-size:12px; }
.kill button { font-size:12px; padding:3px 12px; cursor:pointer; border-radius:6px;
  border:1px solid var(--line); background:var(--panel2); color:var(--text); }
.kill { font-size:12px; padding:2px 8px; border-radius:4px; background:#5a1f1f; color:#ff9c9c; }
main { max-width:1120px; margin:0 auto; padding:26px 28px 0; }
.meta { color:var(--dim); font-size:12.5px; margin:6px 0 0; }
h2 { font-size:13px; color:var(--dim); text-transform:uppercase; letter-spacing:.07em;
     margin:30px 0 10px; }
.cards { display:grid; grid-template-columns:repeat(auto-fit,minmax(170px,1fr)); gap:12px; margin:20px 0 6px; }
.card { background:var(--panel); border:1px solid var(--line); border-radius:10px; padding:14px 16px; }
.card .k { color:var(--dim); font-size:11px; text-transform:uppercase; letter-spacing:.06em; margin-bottom:6px; }
.card .v { font-size:19px; font-weight:600; font-variant-numeric:tabular-nums; }
.card .v small { color:var(--dim); font-size:12px; font-weight:400; }
table { border-collapse:collapse; width:100%; font-size:13px; }
th, td { text-align:left; padding:8px 12px; border-bottom:1px solid var(--line); }
th { color:var(--dim); font-weight:500; font-size:12px; text-transform:uppercase; letter-spacing:.04em; }
td.num, th.num { text-align:right; font-variant-numeric:tabular-nums; }
.empty { color:#566070; font-style:italic; padding:8px 2px; }
.pill { padding:1px 8px; border-radius:10px; font-size:12px; background:var(--panel2); }
.pill.filled { color:var(--up); } .pill.cancelled { color:#c9a86a; }
.pill.rejected { color:var(--down); } .pill.unknown { color:var(--warn); }
.pnl.up { color:var(--up); } .pnl.down { color:var(--down); }
.side-buy { color:var(--up); } .side-sell { color:var(--down); }
.fresh-pill { padding:1px 8px; border-radius:10px; font-size:11px; }
.fresh-pill.fresh { background:#1d3325; color:var(--up); }
.fresh-pill.stale { background:#3a311d; color:var(--warn); }
.fresh-pill.old { background:#3a1d1d; color:var(--down); }
.controls { display:flex; flex-wrap:wrap; gap:8px; align-items:center; background:var(--panel);
            border:1px solid var(--line); border-radius:10px; padding:12px 14px; }
.controls label { color:var(--dim); font-size:12px; }
.controls input, .controls select { background:var(--bg); color:var(--text);
  border:1px solid var(--line); border-radius:6px; padding:6px 10px; font-size:13px; }
.controls button { background:var(--accent); color:#0d1017; border:none; font-weight:600;
  border-radius:6px; padding:7px 18px; cursor:pointer; font-size:13px; }
.controls button:disabled { opacity:.45; cursor:default; }
.statusline { background:var(--panel); border:1px solid var(--line); border-radius:10px;
              padding:12px 14px; margin-top:10px; font-size:13px; white-space:pre-wrap; }
footer { max-width:1120px; margin:34px auto 0; padding:0 28px; color:#566070; font-size:12px; }
"#;

pub const SCRIPT: &'static str = r#"
function toggleKill(on) {
  var msg = on ? 'kill switch를 켭니다. 새 주문이 차단됩니다.' : 'kill switch를 해제합니다.';
  if (!confirm(msg)) return;
  post('/control/kill-switch', {activate: on, reason: 'manual (web)'});
}
function runBacktest() {
  var symbols = document.getElementById('bt-symbols').value.trim();
  var body = {
    strategy: document.getElementById('bt-strategy').value,
    years: parseInt(document.getElementById('bt-years').value, 10) || 5,
    config: {
      initial_cash: parseInt(document.getElementById('bt-cash').value, 10) || 100000000,
      commission_pct: document.getElementById('bt-commission').value,
      tax_pct: document.getElementById('bt-tax').value
    }
  };
  if (symbols) body.symbols = symbols.split(',').map(function (s) { return s.trim(); });
  post('/control/backtest', body);
}
function runOptimize() {
  post('/control/optimize', {strategy: document.getElementById('bt-strategy').value,
    years: parseInt(document.getElementById('bt-years').value, 10) || 5});
}
function runScreener() {
  if (!confirm('KIS 거래금액순 상위로 워치리스트를 갱신합니다 (위험 종목은 조회에서 제외).')) return;
  post('/control/screener', {});
}
function wlAdd() {
  var code = document.getElementById('wl-add').value.trim();
  if (!code) return;
  post('/control/watchlist', {action: 'add', symbol: code});
}
function wlRemove(code) {
  if (!confirm(code + '을(를) 워치리스트에서 제거합니다.')) return;
  post('/control/watchlist', {action: 'remove', symbol: code});
}
function generateStrategy() {
  var desc = document.getElementById('nl-desc').value.trim();
  if (!desc) return;
  var out = document.getElementById('nl-result');
  out.textContent = '생성 중… (GLM 호출+컴파일 게이트, 수십 초)';
  document.querySelectorAll('button').forEach(function (b) { b.disabled = true; });
  fetch('/control/generate-strategy', {
    method: 'POST', headers: {'Content-Type': 'application/json'},
    body: JSON.stringify({description: desc})
  }).then(function (r) { return r.json(); }).then(function (res) {
    out.textContent = res.ok ? res.note + '\n\n' + res.code
      : '실패 — ' + (res.error || '') + (res.code ? '\n\n생성 코드:\n' + res.code : '');
    document.querySelectorAll('button').forEach(function (b) { b.disabled = false; });
  }).catch(function (e) {
    out.textContent = '요청 실패: ' + e;
    document.querySelectorAll('button').forEach(function (b) { b.disabled = false; });
  });
}
function runBackfill() {
  if (!confirm('일봉 백필을 시작합니다 (읽기 전용·수십 초).')) return;
  post('/control/backfill', {years: 5});
}
function post(url, body) {
  document.querySelectorAll('button').forEach(function (b) { b.disabled = true; });
  fetch(url, {method: 'POST', headers: {'Content-Type': 'application/json'}, body: JSON.stringify(body)})
    .then(function () { setTimeout(function () { location.reload(); }, 400); });
}
"#;

/// A fill as the pages list it, its time already formatted.
pub struct FillLine {
    pub at: String,
    pub symbol: String,
    pub side: String,
    pub quantity: i64,
    pub price: Dec,
}

/// What the overview and watchlist pages show.
pub struct StatusPage {
    pub trading_mode: String,
    pub broker: String,
    pub database_path: String,
    pub kill_switch: bool,
    pub kill_reason: Option<String>,
    pub now_utc: String,
    pub positions: Vec<StoredPosition>,
    pub latest_prices: Vec<(String, Dec)>,
    /// Newest first.
    pub fills: Vec<FillLine>,
    /// (symbol, newest candle date).
    pub candle_dates: Vec<(String, String)>,
    /// The watched symbols, in page order.
    pub watchlist: Vec<String>,
    pub strategy_label: String,
    pub uptime_seconds: u64,
    pub screen: BackfillStatus,
}

/// One tab of the top bar.
pub open spec fn tab_text(key: Seq<char>, href: Seq<char>, label: Seq<char>, active: Seq<char>) -> Seq<char> {
    "<a href=\""@ + href + "\""@ + (if key == active { " class=\"active\""@ } else { ""@ }) + ">"@ + label + "</a>"@
}

/// The tabs, the `active` one marked.
pub open spec fn nav_text(active: Seq<char>) -> Seq<char> {
    tab_text("overview"@, "/"@, "개요"@, active) + tab_text("positions"@, "/positions"@, "포지션·내역"@, active)
        + tab_text("lab"@, "/lab"@, "실험실"@, active) + tab_text("data"@, "/data"@, "데이터"@, active)
        + tab_text("watchlist"@, "/watchlist"@, "워치리스트"@, active) + tab_text("audit"@, "/audit"@, "로그"@, active)
}

/// The kill reason as the badge takes it.
pub open spec fn reason_text(reason: Option<String>) -> Seq<char> {
    match reason {
        Some(t) => t@,
        None => Seq::empty(),
    }
}

/// The shared page: head, top bar (mode, tabs, kill control), the meta
/// line, the content, the footer and the script.
pub open spec fn layout_text(
    title: Seq<char>,
    active: Seq<char>,
    mode: Seq<char>,
    kill_switch: bool,
    reason: Seq<char>,
    content: Seq<char>,
    meta: Seq<char>,
) -> Seq<char> {
    "<!doctype html>\n<html lang=\"ko\"><head><meta charset=\"utf-8\">\n<meta http-equiv=\"refresh\" content=\"5\">\n<meta name=\"viewport\" content=\"width=device-width, initial-scale=1\">\n<title>"@
        + escaped(title) + " · LossFunction</title>\n<style>"@ + STYLE@
        + "</style></head>\n<body>\n<header class=\"topbar\">\n  <span class=\"brand\">LossFunction<span class=\"mode"@
        + (if mode == "live"@ { " live"@ } else { ""@ }) + "\">"@ + escaped(mode) + "</span></span>\n  <nav class=\"nav\">"@
        + nav_text(active) + "</nav>\n  "@ + kill_badge_text(kill_switch, reason) + "\n</header>\n<main>\n"@ + meta + "\n"@
        + content
        + "\n</main>\n<footer>JSON: <code>GET /healthz</code> · 제어: <code>POST /control/kill-switch</code> · <code>POST /control/backfill</code> · <code>POST /control/backtest</code> (loopback 전용)</footer>\n<script>"@
        + SCRIPT@ + "</script>\n</body></html>"@
}

fn tab(key: &str, href: &str, label: &str, active: &str) -> (r: String)
    ensures
        r@ == tab_text(key@, href@, label@, active@),
{
    let mut r = String::from_str("<a href=\"");
    r.append(href);
    r.append("\"");
    if text_equal(key, active) {
        r.append(" class=\"active\"");
    } else {
        r.append("");
    }
    r.append(">");
    r.append(label);
    r.append("</a>");
    r
}

/// The shared page around `content`.
pub fn layout(title: &str, active: &str, mode: &str, kill_switch: bool, reason: Option<&str>, content: &str, meta: &str) -> (r: String)
    ensures
        r@ == layout_text(title@, active@, mode@, kill_switch, match reason {
            Some(t) => t@,
            None => Seq::empty(),
        }, content@, meta@),
{
    let mut r = String::from_str("<!doctype html>\n<html lang=\"ko\"><head><meta charset=\"utf-8\">\n<meta http-equiv=\"refresh\" content=\"5\">\n<meta name=\"viewport\" content=\"width=device-width, initial-scale=1\">\n<title>");
    let t = esc(title);
    r.append(t.as_str());
    r.append(" · LossFunction</title>\n<style>");
    r.append(STYLE);
    r.append("</style></head>\n<body>\n<header class=\"topbar\">\n  <span class=\"brand\">LossFunction<span class=\"mode");
    if text_equal(mode, "live") {
        r.append(" live");
    } else {
        r.append("");
    }
    r.append("\">");
    let m = esc(mode);
    r.append(m.as_str());
    r.append("</span></span>\n  <nav class=\"nav\">");
    let a = tab("overview", "/", "개요", active);
    let b = tab("positions", "/positions", "포지션·내역", active);
    let c = tab("lab", "/lab", "실험실", active);
    let d = tab("data", "/data", "데이터", active);
    let e = tab("watchlist", "/watchlist", "워치리스트", active);
    let f = tab("audit", "/audit", "로그", active);
    r.append(a.as_str());
    r.append(b.as_str());
    r.append(c.as_str());
    r.append(d.as_str());
    r.append(e.as_str());
    r.append(f.as_str());
    r.append("</nav>\n  ");
    let k = kill_badge(kill_switch, reason);
    r.append(k.as_str());
    r.append("\n</header>\n<main>\n");
    r.append(meta);
    r.append("\n");
    r.append(content);
    r.append("\n</main>\n<footer>JSON: <code>GET /healthz</code> · 제어: <code>POST /control/kill-switch</code> · <code>POST /control/backfill</code> · <code>POST /control/backtest</code> (loopback 전용)</footer>\n<script>");
    r.append(SCRIPT);
    r.append("</script>\n</body></html>");
    r
}


/// The trend markup of row `i`, empty where none was drawn.
pub open spec fn trend_at(trends: Seq<String>, i: int) -> Seq<char> {
    if 0 <= i < trends.len() {
        trends[i]@
    } else {
        Seq::empty()
    }
}

/// The meta line: the parts escaped and joined by ` · `.
pub open spec fn meta_text(parts: Seq<Seq<char>>) -> Seq<char>
    decreases parts.len(),
{
    if parts.len() == 0 {
        "<p class=\"meta\">"@ + "</p>"@
    } else {
        "<p class=\"meta\">"@ + joined_parts(parts) + "</p>"@
    }
}

/// The parts escaped and joined by ` · `.
pub open spec fn joined_parts(parts: Seq<Seq<char>>) -> Seq<char>
    decreases parts.len(),
{
    if parts.len() == 0 {
        Seq::empty()
    } else if parts.len() == 1 {
        escaped(parts[0])
    } else {
        joined_parts(parts.drop_last()) + " · "@ + escaped(parts.last())
    }
}

pub open spec fn position_headers() -> Seq<Seq<char>> {
    seq!["종목"@, "추이"@, "수량"@, "평단가"@, "현재가"@, "평가금액"@, "손익"@]
}

pub open spec fn fill_headers() -> Seq<Seq<char>> {
    seq!["시각"@, "종목"@, "구분"@, "수량"@, "가격"@, "체결금액"@]
}

/// One row per position, each with its trend.
pub open spec fn position_rows_of(page: StatusPage, trends: Seq<String>) -> Seq<Seq<Seq<char>>> {
    Seq::new(page.positions@.len(), |i: int| position_cells(page.positions@[i], page.latest_prices@, trend_at(trends, i)))
}

/// The newest five fills.
pub open spec fn recent_fill_rows(page: StatusPage) -> Seq<Seq<Seq<char>>> {
    let n = if page.fills@.len() < 5 { page.fills@.len() } else { 5 };
    Seq::new(
        n,
        |i: int| fill_cells(page.fills@[i].at@, page.fills@[i].symbol@, page.fills@[i].side@, page.fills@[i].quantity, page.fills@[i].price),
    )
}

/// Total value, unrealized P&L and its percent; dashes without figures.
pub open spec fn figure_texts(page: StatusPage) -> (Seq<char>, Seq<char>, Seq<char>) {
    match overview_spec(page.positions@, page.latest_prices@) {
        Some((value, pnl, pct)) => (krw_text(value), pnl_span_text(pnl), decimal_text(pct)),
        None => ("—"@, "—"@, "—"@),
    }
}

/// The six summary cards.
pub open spec fn cards_text(page: StatusPage) -> Seq<char> {
    let (value, pnl, pct) = figure_texts(page);
    "<div class=\"cards\">\n<div class=\"card\"><div class=\"k\">전략</div><div class=\"v\">"@ + escaped(page.strategy_label@)
        + "</div></div>\n<div class=\"card\"><div class=\"k\">모드 · 브로커</div><div class=\"v\">"@ + escaped(page.trading_mode@)
        + " <small>"@ + escaped(page.broker@)
        + "</small></div></div>\n<div class=\"card\"><div class=\"k\">총 평가금액</div><div class=\"v\">"@ + value
        + "원</div></div>\n<div class=\"card\"><div class=\"k\">미실현 손익</div><div class=\"v\">"@ + pnl + " <small>"@ + pct
        + "%</small></div></div>\n<div class=\"card\"><div class=\"k\">보유 종목</div><div class=\"v\">"@
        + nat_digits(page.positions@.len()) + "</div></div>\n<div class=\"card\"><div class=\"k\">가동</div><div class=\"v\">"@
        + escaped(uptime_spec(page.uptime_seconds as nat)) + "</div></div>\n</div>"@
}

/// The overview page: cards, positions, the newest fills.
pub open spec fn overview_page(page: StatusPage, trends: Seq<String>) -> Seq<char> {
    layout_text(
        "개요"@,
        "overview"@,
        page.trading_mode@,
        page.kill_switch,
        reason_text(page.kill_reason),
        cards_text(page) + "<h2>보유 포지션</h2>"@ + table_text(position_headers(), position_rows_of(page, trends))
            + "<h2>최근 체결 (<a href=\"/positions\">전체 내역</a>)</h2>"@ + table_text(fill_headers(), recent_fill_rows(page)),
        meta_text(seq![page.database_path@, page.now_utc@, "새로고침 5초"@]),
    )
}

fn meta3(a: &str, b: &str, c: &str) -> (r: String)
    ensures
        r@ == meta_text(seq![a@, b@, c@]),
{
    let mut r = String::from_str("<p class=\"meta\">");
    let x = esc(a);
    let y = esc(b);
    let z = esc(c);
    r.append(x.as_str());
    r.append(" · ");
    r.append(y.as_str());
    r.append(" · ");
    r.append(z.as_str());
    r.append("</p>");
    proof {
        let parts = seq![a@, b@, c@];
        assert(parts.drop_last() =~= seq![a@, b@]);
        assert(parts.drop_last().drop_last() =~= seq![a@]);
        reveal_with_fuel(joined_parts, 3);
    }
    r
}

fn meta2(a: &str, b: &str) -> (r: String)
    ensures
        r@ == meta_text(seq![a@, b@]),
{
    let mut r = String::from_str("<p class=\"meta\">");
    let x = esc(a);
    let y = esc(b);
    r.append(x.as_str());
    r.append(" · ");
    r.append(y.as_str());
    r.append("</p>");
    proof {
        let parts = seq![a@, b@];
        assert(parts.drop_last() =~= seq![a@]);
        reveal_with_fuel(joined_parts, 2);
    }
    r
}

fn empty_text() -> (r: String)
    ensures
        r@ == Seq::<char>::empty(),
{
    String::new()
}

/// The overview page; `trends[i]` is the drawn trend of position `i`.
pub fn render_overview(page: &StatusPage, trends: &Vec<String>) -> (r: String)
    ensures
        r@ == overview_page(*page, trends@),
{
    let (value, pnl, pct) = match overview_figures(&page.positions, &page.latest_prices) {
        Some(f) => (krw_int(&f.value_total), pnl_span(&f.unrealized), f.unrealized_pct.to_text()),
        None => (String::from_str("—"), String::from_str("—"), String::from_str("—")),
    };
    let mut cards = String::from_str("<div class=\"cards\">\n<div class=\"card\"><div class=\"k\">전략</div><div class=\"v\">");
    let strategy = esc(page.strategy_label.as_str());
    cards.append(strategy.as_str());
    cards.append("</div></div>\n<div class=\"card\"><div class=\"k\">모드 · 브로커</div><div class=\"v\">");
    let mode = esc(page.trading_mode.as_str());
    cards.append(mode.as_str());
    cards.append(" <small>");
    let broker = esc(page.broker.as_str());
    cards.append(broker.as_str());
    cards.append("</small></div></div>\n<div class=\"card\"><div class=\"k\">총 평가금액</div><div class=\"v\">");
    cards.append(value.as_str());
    cards.append("원</div></div>\n<div class=\"card\"><div class=\"k\">미실현 손익</div><div class=\"v\">");
    cards.append(pnl.as_str());
    cards.append(" <small>");
    cards.append(pct.as_str());
    cards.append("%</small></div></div>\n<div class=\"card\"><div class=\"k\">보유 종목</div><div class=\"v\">");
    let count = u64_text(page.positions.len() as u64);
    cards.append(count.as_str());
    cards.append("</div></div>\n<div class=\"card\"><div class=\"k\">가동</div><div class=\"v\">");
    let up = uptime_text(page.uptime_seconds);
    let up_esc = esc(up.as_str());
    cards.append(up_esc.as_str());
    cards.append("</div></div>\n</div>");
    assert(cards@ == cards_text(*page));

    let mut rows: Vec<Vec<String>> = Vec::new();
    let mut i: usize = 0;
    while i < page.positions.len()
        invariant
            0 <= i <= page.positions@.len(),
            row_views(rows@) =~= position_rows_of(*page, trends@).take(i as int),
        decreases page.positions.len() - i,
    {
        let empty = empty_text();
        let trend: &str = if i < trends.len() { trends[i].as_str() } else { empty.as_str() };
        assert(trend@ == trend_at(trends@, i as int));
        let row = position_row(&page.positions[i], &page.latest_prices, trend);
        let ghost before = rows@;
        rows.push(row);
        proof {
            assert(rows@.drop_last() == before);
            assert(row_views(rows@).drop_last() =~= row_views(before));
            assert(row_views(rows@).last() =~= cell_texts(rows@.last()@));
        }
        i = i + 1;
        assert(row_views(rows@) =~= position_rows_of(*page, trends@).take(i as int));
    }
    assert(position_rows_of(*page, trends@).take(i as int) =~= position_rows_of(*page, trends@));
    let n: usize = if page.fills.len() < 5 { page.fills.len() } else { 5 };
    let mut fill_rows: Vec<Vec<String>> = Vec::new();
    let mut j: usize = 0;
    while j < n
        invariant
            0 <= j <= n,
            n == (if page.fills@.len() < 5 { page.fills@.len() } else { 5 }),
            row_views(fill_rows@) =~= recent_fill_rows(*page).take(j as int),
        decreases n - j,
    {
        let f = &page.fills[j];
        let row = fill_row(f.at.as_str(), f.symbol.as_str(), f.side.as_str(), f.quantity, &f.price);
        let ghost before = fill_rows@;
        fill_rows.push(row);
        proof {
            assert(fill_rows@.drop_last() == before);
            assert(row_views(fill_rows@).drop_last() =~= row_views(before));
            assert(row_views(fill_rows@).last() =~= cell_texts(fill_rows@.last()@));
        }
        j = j + 1;
        assert(row_views(fill_rows@) =~= recent_fill_rows(*page).take(j as int));
    }
    assert(recent_fill_rows(*page).take(j as int) =~= recent_fill_rows(*page));
    let position_headers_v = vec!["종목", "추이", "수량", "평단가", "현재가", "평가금액", "손익"];
    let fill_headers_v = vec!["시각", "종목", "구분", "수량", "가격", "체결금액"];
    assert(str_views(position_headers_v@) =~= position_headers());
    assert(str_views(fill_headers_v@) =~= fill_headers());
    let positions_table = table(&position_headers_v, &rows);
    let fills_table = table(&fill_headers_v, &fill_rows);
    let mut content = cards;
    content.append("<h2>보유 포지션</h2>");
    content.append(positions_table.as_str());
    content.append("<h2>최근 체결 (<a href=\"/positions\">전체 내역</a>)</h2>");
    content.append(fills_table.as_str());
    let meta = meta3(page.database_path.as_str(), page.now_utc.as_str(), "새로고침 5초");
    let reason: Option<&str> = match &page.kill_reason {
        Some(t) => Some(t.as_str()),
        None => None,
    };
    layout("개요", "overview", page.trading_mode.as_str(), page.kill_switch, reason, content.as_str(), meta.as_str())
}

/// The first price recorded for `code`.
pub open spec fn first_price(prices: Seq<(String, Dec)>, code: Seq<char>) -> Option<Dec>
    decreases prices.len(),
{
    if prices.len() == 0 {
        None
    } else if prices[0].0@ == code {
        Some(prices[0].1)
    } else {
        first_price(prices.skip(1), code)
    }
}

/// The first candle date recorded for `code`.
pub open spec fn first_date(dates: Seq<(String, String)>, code: Seq<char>) -> Option<Seq<char>>
    decreases dates.len(),
{
    if dates.len() == 0 {
        None
    } else if dates[0].0@ == code {
        Some(dates[0].1@)
    } else {
        first_date(dates.skip(1), code)
    }
}

fn find_price(prices: &Vec<(String, Dec)>, code: &str) -> (r: Option<Dec>)
    ensures
        r == first_price(prices@, code@),
{
    let mut i: usize = 0;
    assert(prices@.skip(0) =~= prices@);
    while i < prices.len()
        invariant
            0 <= i <= prices@.len(),
            first_price(prices@, code@) == first_price(prices@.skip(i as int), code@),
        decreases prices.len() - i,
    {
        proof {
            assert(prices@.skip(i as int)[0] == prices@[i as int]);
            assert(prices@.skip(i as int).skip(1) =~= prices@.skip(i + 1));
        }
        if text_equal(prices[i].0.as_str(), code) {
            return Some(prices[i].1);
        }
        i = i + 1;
    }
    None
}

fn find_date(dates: &Vec<(String, String)>, code: &str) -> (r: Option<usize>)
    ensures
        match r {
            Some(k) => k < dates@.len() && first_date(dates@, code@) == Some(dates@[k as int].1@),
            None => first_date(dates@, code@) is None,
        },
{
    let mut i: usize = 0;
    assert(dates@.skip(0) =~= dates@);
    while i < dates.len()
        invariant
            0 <= i <= dates@.len(),
            first_date(dates@, code@) == first_date(dates@.skip(i as int), code@),
        decreases dates.len() - i,
    {
        proof {
            assert(dates@.skip(i as int)[0] == dates@[i as int]);
            assert(dates@.skip(i as int).skip(1) =~= dates@.skip(i + 1));
        }
        if text_equal(dates[i].0.as_str(), code) {
            return Some(i);
        }
        i = i + 1;
    }
    None
}

pub open spec fn watch_headers() -> Seq<Seq<char>> {
    seq!["종목"@, "최신가"@, "일봉"@, "추이"@, ""@]
}

/// One row per watched symbol, each with its trend.
pub open spec fn watch_rows_of(page: StatusPage, trends: Seq<String>) -> Seq<Seq<Seq<char>>> {
    Seq::new(
        page.watchlist@.len(),
        |i: int| watch_cells(
            page.watchlist@[i]@,
            first_price(page.latest_prices@, page.watchlist@[i]@),
            first_date(page.candle_dates@, page.watchlist@[i]@),
            page.now_utc@,
            trend_at(trends, i),
        ),
    )
}

/// The watchlist page: the rows, the add and screener controls and the
/// screener's status.
pub open spec fn watchlist_page(page: StatusPage, trends: Seq<String>) -> Seq<char> {
    layout_text(
        "워치리스트"@,
        "watchlist"@,
        page.trading_mode@,
        page.kill_switch,
        reason_text(page.kill_reason),
        "<h2>워치리스트</h2>\n"@ + table_text(watch_headers(), watch_rows_of(page, trends))
            + "\n<div class=\"controls\" style=\"margin-top:12px\">\n  <input id=\"wl-add\" placeholder=\"종목코드 6자리\" size=\"12\">\n  <button onclick=\"wlAdd()\">추가</button>\n  <button onclick=\"runScreener()\">스크리닝 갱신 (거래금액순)</button>\n  <span class=\"meta\">"@
            + escaped(status_line_text("스크리너"@, page.screen)) + "</span>\n</div>"@,
        meta_text(seq![page.now_utc@, "새로고침 5초"@]),
    )
}

/// The watchlist page; `trends[i]` is the drawn trend of watched symbol `i`.
pub fn render_watchlist_page(page: &StatusPage, trends: &Vec<String>) -> (r: String)
    ensures
        r@ == watchlist_page(*page, trends@),
{
    let mut rows: Vec<Vec<String>> = Vec::new();
    let mut i: usize = 0;
    while i < page.watchlist.len()
        invariant
            0 <= i <= page.watchlist@.len(),
            row_views(rows@) =~= watch_rows_of(*page, trends@).take(i as int),
        decreases page.watchlist.len() - i,
    {
        let code = page.watchlist[i].as_str();
        let empty = empty_text();
        let trend: &str = if i < trends.len() { trends[i].as_str() } else { empty.as_str() };
        assert(trend@ == trend_at(trends@, i as int));
        let last = find_price(&page.latest_prices, code);
        let newest: Option<&str> = match find_date(&page.candle_dates, code) {
            Some(k) => Some(page.candle_dates[k].1.as_str()),
            None => None,
        };
        let row = watch_row(code, &last, newest, page.now_utc.as_str(), trend);
        let ghost before = rows@;
        rows.push(row);
        proof {
            assert(rows@.drop_last() == before);
            assert(row_views(rows@).drop_last() =~= row_views(before));
            assert(row_views(rows@).last() =~= cell_texts(rows@.last()@));
        }
        i = i + 1;
        assert(row_views(rows@) =~= watch_rows_of(*page, trends@).take(i as int));
    }
    assert(watch_rows_of(*page, trends@).take(i as int) =~= watch_rows_of(*page, trends@));
    let headers = vec!["종목", "최신가", "일봉", "추이", ""];
    assert(str_views(headers@) =~= watch_headers());
    let watch_table = table(&headers, &rows);
    let mut content = String::from_str("<h2>워치리스트</h2>\n");
    content.append(watch_table.as_str());
    content.append("\n<div class=\"controls\" style=\"margin-top:12px\">\n  <input id=\"wl-add\" placeholder=\"종목코드 6자리\" size=\"12\">\n  <button onclick=\"wlAdd()\">추가</button>\n  <button onclick=\"runScreener()\">스크리닝 갱신 (거래금액순)</button>\n  <span class=\"meta\">");
    let line = status_line("스크리너", &page.screen);
    let line_esc = esc(line.as_str());
    content.append(line_esc.as_str());
    content.append("</span>\n</div>");
    let meta = meta2(page.now_utc.as_str(), "새로고침 5초");
    let reason: Option<&str> = match &page.kill_reason {
        Some(t) => Some(t.as_str()),
        None => None,
    };
    layout("워치리스트", "watchlist", page.trading_mode.as_str(), page.kill_switch, reason, content.as_str(), meta.as_str())
}

/// `YYYYMMDD` as `YYYY-MM-DD`.
pub open spec fn dashed(ymd: Seq<char>) -> Seq<char> {
    if ymd.len() == 8 {
        ymd.subrange(0, 4) + "-"@ + ymd.subrange(4, 6) + "-"@ + ymd.subrange(6, 8)
    } else {
        ymd
    }
}

/// The UTC date of an instant, `YYYY-MM-DD`.
pub open spec fn date_label(ts: i64) -> Seq<char> {
    dashed(day_ymd(utc_day_of(ts as int)))
}

fn date_text(ts: i64) -> (r: String)
    ensures
        r@ == date_label(ts),
{
    let day = utc_day(ts);
    assert(-106_752 <= day <= 106_752) by (nonlinear_arith)
        requires
            day == utc_day_of(ts as int),
            i64::MIN <= ts <= i64::MAX,
    ;
    let t = day_text(day);
    let n = t.unicode_len();
    if n == 8 {
        let s = t.as_str();
        let mut r = String::from_str(s.substring_char(0, 4));
        r.append("-");
        r.append(s.substring_char(4, 6));
        r.append("-");
        r.append(s.substring_char(6, 8));
        r
    } else {
        t
    }
}

/// The statistics block of a symbol page.
pub open spec fn stats_text(candles: Seq<Bar>) -> Seq<char> {
    if candles.len() == 0 {
        "<p class=\"empty\">저장된 일봉이 없습니다 — 백필을 실행하세요.</p>"@
    } else {
        let closes = Seq::new(candles.len(), |i: int| candles[i].close);
        let range = range_fold(closes, closes.len() as int, closes[0]);
        "<table><thead><tr><th>기간</th><th>시작가</th><th>최고</th><th>최저</th><th>마지막 종가</th><th>봉 수</th></tr></thead>\n<tbody><tr><td>"@
            + date_label(candles[0].timestamp) + " ~ "@ + date_label(candles.last().timestamp) + "</td><td>"@
            + money_text(Some(candles[0].close)) + "</td><td>"@ + money_text(Some(range.0)) + "</td><td>"@
            + money_text(Some(range.1)) + "</td><td>"@ + money_text(Some(candles.last().close)) + "</td><td>"@
            + nat_digits(candles.len()) + "</td></tr></tbody></table>"@
    }
}

/// One row of the newest-bars table.
pub open spec fn bar_row_text(b: Bar) -> Seq<char> {
    "<tr><td>"@ + date_label(b.timestamp) + "</td><td>"@ + money_text(Some(b.open)) + "</td><td>"@
        + money_text(Some(b.high)) + "</td><td>"@ + money_text(Some(b.low)) + "</td><td>"@
        + money_text(Some(b.close)) + "</td><td>"@ + int_text(b.volume as int) + "</td></tr>"@
}

/// The newest `k` bars, newest first.
pub open spec fn newest_rows(candles: Seq<Bar>, k: nat) -> Seq<char>
    decreases k,
{
    if k == 0 || candles.len() < k {
        Seq::empty()
    } else {
        bar_row_text(candles[candles.len() - k]) + newest_rows(candles, (k - 1) as nat)
    }
}

/// How many of the newest bars the page lists.
pub open spec fn listed(candles: Seq<Bar>) -> nat {
    if candles.len() < 10 { candles.len() } else { 10 }
}

/// The per-symbol page: identity, latest price, the drawn closes chart,
/// the statistics and the newest ten bars.
pub open spec fn symbol_page(code: Seq<char>, candles: Seq<Bar>, latest: Option<Dec>, chart: Seq<char>) -> Seq<char> {
    let name = match known_name(code) {
        Some(n) => n,
        None => ""@,
    };
    let price_line = match latest {
        Some(p) => "현재가 "@ + money_text(Some(p)) + "원"@,
        None => "현재가 —"@,
    };
    "<!doctype html>\n<html lang=\"ko\"><head><meta charset=\"utf-8\">\n<meta name=\"viewport\" content=\"width=device-width, initial-scale=1\">\n<title>"@
        + escaped(code) + " · "@ + escaped(name) + "</title>\n<style>"@ + STYLE@ + "</style></head>\n<body><main>\n<h1>"@
        + escaped(name) + " <small>"@ + escaped(code) + "</small></h1>\n<p class=\"meta\">"@ + escaped(price_line)
        + " · <a href=\"/\">← 전체 상태로</a></p>\n"@ + chart + "\n<h2>통계</h2>\n"@ + stats_text(candles)
        + "\n<h2>최근 봉</h2>\n<table><thead><tr><th>날짜</th><th>시가</th><th>고가</th><th>저가</th><th>종가</th><th>거래량</th></tr></thead><tbody>"@
        + newest_rows(candles, listed(candles)) + "</tbody></table>\n</main></body></html>"@
}

fn bar_row(b: &Bar) -> (r: String)
    ensures
        r@ == bar_row_text(*b),
{
    let mut r = String::from_str("<tr><td>");
    let d = date_text(b.timestamp);
    r.append(d.as_str());
    r.append("</td><td>");
    let o = money(&Some(b.open));
    r.append(o.as_str());
    r.append("</td><td>");
    let h = money(&Some(b.high));
    r.append(h.as_str());
    r.append("</td><td>");
    let l = money(&Some(b.low));
    r.append(l.as_str());
    r.append("</td><td>");
    let c = money(&Some(b.close));
    r.append(c.as_str());
    r.append("</td><td>");
    let v = i64_text(b.volume);
    r.append(v.as_str());
    r.append("</td></tr>");
    r
}

/// A symbol's page; `chart` is the drawn closes chart.
pub fn render_symbol_page(symbol: &str, candles: &Vec<Bar>, latest: Option<Dec>, chart: &str) -> (r: String)
    ensures
        r@ == symbol_page(symbol@, candles@, latest, chart@),
{
    let name: &str = match symbol_name(symbol) {
        Some(n) => n,
        None => "",
    };
    let stats = if candles.len() == 0 {
        String::from_str("<p class=\"empty\">저장된 일봉이 없습니다 — 백필을 실행하세요.</p>")
    } else {
        let mut closes: Vec<Dec> = Vec::new();
        let mut i: usize = 0;
        while i < candles.len()
            invariant
                0 <= i <= candles@.len(),
                closes@ =~= Seq::new(i as nat, |k: int| candles@[k].close),
            decreases candles.len() - i,
        {
            closes.push(candles[i].close);
            i = i + 1;
        }
        let range = match close_range(&closes) {
            Some(x) => x,
            None => (candles[0].close, candles[0].close),
        };
        let last = &candles[candles.len() - 1];
        let mut t = String::from_str("<table><thead><tr><th>기간</th><th>시작가</th><th>최고</th><th>최저</th><th>마지막 종가</th><th>봉 수</th></tr></thead>\n<tbody><tr><td>");
        let d0 = date_text(candles[0].timestamp);
        t.append(d0.as_str());
        t.append(" ~ ");
        let d1 = date_text(last.timestamp);
        t.append(d1.as_str());
        t.append("</td><td>");
        let m0 = money(&Some(candles[0].close));
        t.append(m0.as_str());
        t.append("</td><td>");
        let m1 = money(&Some(range.0));
        t.append(m1.as_str());
        t.append("</td><td>");
        let m2 = money(&Some(range.1));
        t.append(m2.as_str());
        t.append("</td><td>");
        let m3 = money(&Some(last.close));
        t.append(m3.as_str());
        t.append("</td><td>");
        let count = u64_text(candles.len() as u64);
        t.append(count.as_str());
        t.append("</td></tr></tbody></table>");
        t
    };
    let n = candles.len();
    let k: usize = if n < 10 { n } else { 10 };
    let mut rows = String::new();
    let mut j: usize = k;
    while j > 0
        invariant
            0 <= j <= k <= n == candles@.len(),
            k == listed(candles@),
            rows@ + newest_rows(candles@, j as nat) == newest_rows(candles@, k as nat),
        decreases j,
    {
        let row = bar_row(&candles[n - j]);
        rows.append(row.as_str());
        j = j - 1;
    }
    let price_line = match latest {
        Some(p) => {
            let mut t = String::from_str("현재가 ");
            let m = money(&Some(p));
            t.append(m.as_str());
            t.append("원");
            t
        },
        None => String::from_str("현재가 —"),
    };
    let mut r = String::from_str("<!doctype html>\n<html lang=\"ko\"><head><meta charset=\"utf-8\">\n<meta name=\"viewport\" content=\"width=device-width, initial-scale=1\">\n<title>");
    let code_esc = esc(symbol);
    let name_esc = esc(name);
    r.append(code_esc.as_str());
    r.append(" · ");
    r.append(name_esc.as_str());
    r.append("</title>\n<style>");
    r.append(STYLE);
    r.append("</style></head>\n<body><main>\n<h1>");
    r.append(name_esc.as_str());
    r.append(" <small>");
    r.append(code_esc.as_str());
    r.append("</small></h1>\n<p class=\"meta\">");
    let line = esc(price_line.as_str());
    r.append(line.as_str());
    r.append(" · <a href=\"/\">← 전체 상태로</a></p>\n");
    r.append(chart);
    r.append("\n<h2>통계</h2>\n");
    r.append(stats.as_str());
    r.append("\n<h2>최근 봉</h2>\n<table><thead><tr><th>날짜</th><th>시가</th><th>고가</th><th>저가</th><th>종가</th><th>거래량</th></tr></thead><tbody>");
    r.append(rows.as_str());
    r.append("</tbody></table>\n</main></body></html>");
    r
}
} // verus!

//! KIS WebSocket market data: frame parsing, message shapes and the
//! client's desired-subscription state.
//!
//! Data frames are pipe-delimited `0|TR_ID|TR_KEY|v1^v2^...` where the
//! fourth field repeats `^`-separated records of the H0STCNT0 column list
//! (46 columns); keepalive arrives as a JSON message whose `header.tr_id` is
//! `PINGPONG`. Desired subscriptions are domain state, not connection
//! state: a reconnect replays them.

use vstd::prelude::*;
use crate::config::debug_text;
use crate::config::debug_quoted;
use crate::decimal::{Dec, decimal_parse};
use crate::kis::auth::{kst_instant, parse_kst};
use crate::text::{int_text, split_pieces, split_text, text_equal, u64_text, contains_text,
    starts_with_text, text_contains, text_starts_with};
use crate::symbol_table::SymbolTable;
use crate::types::{Quote, Symbol, Timestamp, is_symbol_text, symbol_code};

verus! {

/// 국내주식 실시간체결가(KRX) H0STCNT0 — official column order (46 columns).
pub const H0STCNT0_COLUMNS: [&'static str; 46] = [
    "MKSC_SHRN_ISCD",
    "STCK_CNTG_HOUR",
    "STCK_PRPR",
    "PRDY_VRSS_SIGN",
    "PRDY_VRSS",
    "PRDY_CTRT",
    "WGHN_AVRG_STCK_PRC",
    "STCK_OPRC",
    "STCK_HGPR",
    "STCK_LWPR",
    "ASKP1",
    "BIDP1",
    "CNTG_VOL",
    "ACML_VOL",
    "ACML_TR_PBMN",
    "SELN_CNTG_CSNU",
    "SHNU_CNTG_CSNU",
    "NTBY_CNTG_CSNU",
    "CTTR",
    "SELN_CNTG_SMTN",
    "SHNU_CNTG_SMTN",
    "CCLD_DVSN",
    "SHNU_RATE",
    "PRDY_VOL_VRSS_ACML_VOL_RATE",
    "OPRC_HOUR",
    "OPRC_VRSS_PRPR_SIGN",
    "OPRC_VRSS_PRPR",
    "HGPR_HOUR",
    "HGPR_VRSS_PRPR_SIGN",
    "HGPR_VRSS_PRPR",
    "LWPR_HOUR",
    "LWPR_VRSS_PRPR_SIGN",
    "LWPR_VRSS_PRPR",
    "BSOP_DATE",
    "NEW_MKOP_CLS_CODE",
    "TRHT_YN",
    "ASKP_RSQN1",
    "BIDP_RSQN1",
    "TOTAL_ASKP_RSQN",
    "TOTAL_BIDP_RSQN",
    "VOL_TNRT",
    "PRDY_SMNS_HOUR_ACML_VOL",
    "PRDY_SMNS_HOUR_ACML_VOL_RATE",
    "HOUR_CLS_CODE",
    "MRKT_TRTM_CLS_CODE",
    "VI_STND_PRC",
];

/// Columns per H0STCNT0 record.
pub const RECORD_WIDTH: usize = 46;
/// Position of `MKSC_SHRN_ISCD` (the ticker) in a record.
pub const SYMBOL_COLUMN: usize = 0;
/// Position of `STCK_CNTG_HOUR` (trade time, `HHMMSS` KST).
pub const TIME_COLUMN: usize = 1;
/// Position of `STCK_PRPR` (last price).
pub const PRICE_COLUMN: usize = 2;
/// Position of `BSOP_DATE` (business date, `YYYYMMDD`).
pub const DATE_COLUMN: usize = 33;

#[derive(Debug, Clone)]
pub enum FrameError {
    UnexpectedFrame(String),
    NotMultiple { count: usize, width: usize },
    BadField { field: &'static str, message: String },
}

/// What a refused frame reports.
pub enum FrameFault {
    Unexpected(Seq<char>),
    NotMultiple(nat, nat),
    BadField(Seq<char>, Seq<char>),
}

impl FrameError {
    pub open spec fn fault(self) -> FrameFault {
        match self {
            FrameError::UnexpectedFrame(t) => FrameFault::Unexpected(t@),
            FrameError::NotMultiple { count, width } => FrameFault::NotMultiple(count as nat, width as nat),
            FrameError::BadField { field, message } => FrameFault::BadField(field@, message@),
        }
    }

    /// The error's rendered text.
    pub fn message(&self) -> (r: String)
        ensures
            r@ == match self.fault() {
                FrameFault::Unexpected(t) => "unexpected market-data frame: "@ + debug_text(t),
                FrameFault::NotMultiple(c, w) => "frame field count "@ + int_text(c as int)
                    + " not a multiple of "@ + int_text(w as int),
                FrameFault::BadField(f, m) => "bad field "@ + f + ": "@ + m,
            },
    {
        match self {
            FrameError::UnexpectedFrame(t) => {
                let mut r = String::from_str("unexpected market-data frame: ");
                let q = debug_quoted(t.as_str());
                r.append(q.as_str());
                r
            },
            FrameError::NotMultiple { count, width } => {
                let mut r = String::from_str("frame field count ");
                let c = u64_text(*count as u64);
                r.append(c.as_str());
                r.append(" not a multiple of ");
                let w = u64_text(*width as u64);
                r.append(w.as_str());
                r
            },
            FrameError::BadField { field, message } => {
                let mut r = String::from_str("bad field ");
                r.append(field);
                r.append(": ");
                r.append(message.as_str());
                r
            },
        }
    }
}

/// The quote one record yields: ticker, price and the KST trade time read
/// as a UTC instant; or the first field that is unusable.
pub open spec fn record_quote(values: Seq<Seq<char>>, j: int) -> Result<(Seq<char>, Dec, Timestamp), FrameFault> {
    let n = values.len();
    let base = 46 * j;
    let symbol = values[base];
    let time = values[base + 1];
    let price = values[base + 2];
    let date = values[base + 33];
    if !is_symbol_text(symbol) {
        Err(FrameFault::BadField("MKSC_SHRN_ISCD"@, symbol))
    } else {
        match decimal_parse(price) {
            None => Err(FrameFault::BadField("STCK_PRPR"@, price)),
            Some(p) => match kst_instant(date + time, "%Y%m%d%H%M%S"@) {
                None => Err(FrameFault::BadField("BSOP_DATE+STCK_CNTG_HOUR"@, date + " "@ + time)),
                Some(t) => Ok((symbol, p, t)),
            },
        }
    }
}

/// The quotes of the first `k` records, or the first record's fault.
pub open spec fn quotes_upto(values: Seq<Seq<char>>, k: nat) -> Result<Seq<(Seq<char>, Dec, Timestamp)>, FrameFault>
    decreases k,
{
    if k == 0 {
        Ok(Seq::empty())
    } else {
        match quotes_upto(values, (k - 1) as nat) {
            Err(e) => Err(e),
            Ok(before) => match record_quote(values, k - 1) {
                Err(e) => Err(e),
                Ok(q) => Ok(before.push(q)),
            },
        }
    }
}

/// What one raw frame gives.
pub open spec fn frame_outcome(raw: Seq<char>) -> Result<Seq<(Seq<char>, Dec, Timestamp)>, FrameFault> {
    let fields = split_pieces(raw, '|');
    if fields.len() < 4 || fields[1] != "H0STCNT0"@ {
        Err(FrameFault::Unexpected(raw.take(if raw.len() < 80 { raw.len() as int } else { 80 })))
    } else {
        let values = split_pieces(fields[3], '^');
        if values.len() % 46 != 0 {
            Err(FrameFault::NotMultiple(values.len(), 46))
        } else {
            quotes_upto(values, values.len() / 46)
        }
    }
}

pub open spec fn quote_views(s: Seq<Quote>) -> Seq<(Seq<char>, Dec, Timestamp)> {
    Seq::new(s.len(), |i: int| (s[i].symbol@, s[i].last_price, s[i].timestamp))
}

pub open spec fn text_views(s: Seq<String>) -> Seq<Seq<char>> {
    Seq::new(s.len(), |i: int| s[i]@)
}

/// Once a record is refused, every longer run of records is refused with
/// the same fault.
pub proof fn lemma_quotes_err_extends(values: Seq<Seq<char>>, k: nat, m: nat)
    requires
        k <= m,
        quotes_upto(values, k) is Err,
    ensures
        quotes_upto(values, m) == quotes_upto(values, k),
    decreases m - k,
{
    if k < m {
        lemma_quotes_err_extends(values, k, (m - 1) as nat);
    }
}

/// The quote of record `j`.
fn parse_record(values: &Vec<String>, j: usize) -> (r: Result<Quote, FrameError>)
    requires
        46 * j + 46 <= values@.len(),
    ensures
        match record_quote(text_views(values@), j as int) {
            Ok(q) => r matches Ok(x) && (x.symbol@, x.last_price, x.timestamp) == q,
            Err(f) => r matches Err(e) && e.fault() == f,
        },
{
    proof {
        reveal_strlit("MKSC_SHRN_ISCD");
        reveal_strlit("STCK_PRPR");
        reveal_strlit("BSOP_DATE+STCK_CNTG_HOUR");
        reveal_strlit("%Y%m%d%H%M%S");
        reveal_strlit(" ");
    }
    let n = values.len();
    let base = RECORD_WIDTH * j;
    let symbol_text = &values[base + SYMBOL_COLUMN];
    let time_text = &values[base + TIME_COLUMN];
    let price_text = &values[base + PRICE_COLUMN];
    let date_text = &values[base + DATE_COLUMN];
    let symbol = match Symbol::parse(symbol_text.as_str()) {
        Ok(s) => s,
        Err(_) => {
            return Err(FrameError::BadField { field: "MKSC_SHRN_ISCD", message: symbol_text.clone() });
        },
    };
    let price = match Dec::parse(price_text.as_str()) {
        Some(p) => p,
        None => {
            return Err(FrameError::BadField { field: "STCK_PRPR", message: price_text.clone() });
        },
    };
    let mut stamp = date_text.clone();
    stamp.append(time_text.as_str());
    match parse_kst(stamp.as_str(), "%Y%m%d%H%M%S") {
        Some(timestamp) => Ok(Quote { symbol, last_price: price, timestamp }),
        None => {
            let mut m = date_text.clone();
            m.append(" ");
            m.append(time_text.as_str());
            Err(FrameError::BadField { field: "BSOP_DATE+STCK_CNTG_HOUR", message: m })
        },
    }
}

/// Parse one H0STCNT0 data frame into quotes.
pub fn parse_market_data(raw: &str) -> (r: Result<Vec<Quote>, FrameError>)
    ensures
        match frame_outcome(raw@) {
            Ok(qs) => r matches Ok(v) && quote_views(v@) == qs,
            Err(f) => r matches Err(e) && e.fault() == f,
        },
{
    proof {
        reveal_strlit("H0STCNT0");
    }
    let fields = split_text(raw, '|');
    proof {
        assert(text_views(fields@) == split_pieces(raw@, '|'));
    }
    if fields.len() < 4 || !text_equal(fields[1].as_str(), "H0STCNT0") {
        let n = raw.unicode_len();
        let end: usize = if n < 80 { n } else { 80 };
        let head = String::from_str(raw.substring_char(0, end));
        assert(raw@.subrange(0, end as int) =~= raw@.take(end as int));
        return Err(FrameError::UnexpectedFrame(head));
    }
    proof {
        assert(split_pieces(raw@, '|')[1] == fields@[1]@);
        assert(split_pieces(raw@, '|')[3] == fields@[3]@);
    }
    let values = split_text(fields[3].as_str(), '^');
    let ghost vs = text_views(values@);
    assert(vs == split_pieces(fields@[3]@, '^'));
    let count = values.len();
    if count % RECORD_WIDTH != 0 {
        return Err(FrameError::NotMultiple { count, width: RECORD_WIDTH });
    }
    let records = count / RECORD_WIDTH;
    assert(records * 46 == count) by (nonlinear_arith)
        requires
            count % 46 == 0,
            records == count / 46,
    ;
    let mut quotes: Vec<Quote> = Vec::new();
    let mut j: usize = 0;
    assert(quote_views(quotes@) =~= Seq::<(Seq<char>, Dec, Timestamp)>::empty());
    assert(frame_outcome(raw@) == quotes_upto(vs, records as nat));
    while j < records
        invariant
            frame_outcome(raw@) == quotes_upto(vs, records as nat),
            records * 46 == count,
            count == values@.len(),
            vs == text_views(values@),
            0 <= j <= records,
            quotes_upto(vs, j as nat) == Ok::<Seq<(Seq<char>, Dec, Timestamp)>, FrameFault>(quote_views(quotes@)),
        decreases records - j,
    {
        assert(46 * j + 46 <= values@.len()) by (nonlinear_arith)
            requires
                j < records,
                records * 46 == values@.len(),
        ;
        match parse_record(&values, j) {
            Ok(q) => {
                let ghost before = quote_views(quotes@);
                quotes.push(q);
                assert(quote_views(quotes@) =~= before.push((q.symbol@, q.last_price, q.timestamp)));
            },
            Err(e) => {
                proof {
                    assert(quotes_upto(vs, (j + 1) as nat) == Err::<Seq<(Seq<char>, Dec, Timestamp)>, FrameFault>(e.fault()));
                    lemma_quotes_err_extends(vs, (j + 1) as nat, records as nat);
                }
                return Err(e);
            },
        }
        j = j + 1;
    }
    Ok(quotes)
}

/// serde_json's rendering of a string as a JSON string literal.
pub uninterp spec fn json_string_text(s: Seq<char>) -> Seq<char>;

/// `serde_json::to_string(s)` for a string: the quoted, escaped literal.
/// Serialising a `str` does not fail.
#[verifier::external_body]
fn json_string(s: &str) -> (r: String)
    ensures
        r@ == json_string_text(s@),
{
    serde_json::to_string(s).unwrap_or_default()
}

/// The subscribe (`tr_type` "1") or unsubscribe ("0") message, as JSON
/// text as serde_json writes the object (keys in sorted order, compact).
pub open spec fn subscribe_text(approval_key: Seq<char>, tr_id: Seq<char>, tr_key: Seq<char>, subscribe: bool) -> Seq<char> {
    "{\"body\":{\"input\":{\"tr_id\":"@ + json_string_text(tr_id) + ",\"tr_key\":"@ + json_string_text(tr_key)
        + "}},\"header\":{\"approval_key\":"@ + json_string_text(approval_key)
        + ",\"custtype\":\"P\",\"tr_type\":\""@ + (if subscribe { "1"@ } else { "0"@ }) + "\"}}"@
}

/// Build the KIS subscribe/unsubscribe message.
pub fn build_subscribe_message(approval_key: &str, tr_id: &str, tr_key: &str, subscribe: bool) -> (r: String)
    ensures
        r@ == subscribe_text(approval_key@, tr_id@, tr_key@, subscribe),
{
    let mut r = String::from_str("{\"body\":{\"input\":{\"tr_id\":");
    let i = json_string(tr_id);
    r.append(i.as_str());
    r.append(",\"tr_key\":");
    let k = json_string(tr_key);
    r.append(k.as_str());
    r.append("}},\"header\":{\"approval_key\":");
    let a = json_string(approval_key);
    r.append(a.as_str());
    r.append(",\"custtype\":\"P\",\"tr_type\":\"");
    r.append(if subscribe { "1" } else { "0" });
    r.append("\"}}");
    r
}

/// `header.tr_id` of a JSON message, where the text is JSON and that field
/// is a string.
pub uninterp spec fn json_header_tr_id(raw: Seq<char>) -> Option<Seq<char>>;

/// Parse `raw` with serde_json and read `header.tr_id` as a string.
#[verifier::external_body]
fn header_tr_id(raw: &str) -> (r: Option<String>)
    ensures
        match r {
            Some(t) => json_header_tr_id(raw@) == Some(t@),
            None => json_header_tr_id(raw@) is None,
        },
{
    let payload: serde_json::Value = serde_json::from_str(raw).ok()?;
    payload["header"]["tr_id"].as_str().map(|t| t.to_string())
}

/// The server keepalive: JSON `header.tr_id` is `PINGPONG`, or the text
/// holds `PINGPONG` anywhere.
pub open spec fn is_pingpong_text(raw: Seq<char>) -> bool {
    json_header_tr_id(raw) == Some("PINGPONG"@) || contains_text(raw, "PINGPONG"@)
}

/// Detect the server keepalive.
pub fn is_pingpong(raw: &str) -> (r: bool)
    ensures
        r == is_pingpong_text(raw@),
{
    let by_header = match header_tr_id(raw) {
        Some(t) => text_equal(t.as_str(), "PINGPONG"),
        None => false,
    };
    by_header || text_contains(raw, "PINGPONG")
}

/// What the client does with one raw message.
#[derive(Debug, Clone, Copy, PartialEq, Eq, Structural)]
pub enum RawKind {
    /// A data frame (`0|` or `1|`): parse it and hand the quotes on.
    MarketData,
    /// A keepalive: echo it back.
    PingPong,
    /// Any other system message (subscription acks): nothing to do.
    Other,
}

pub open spec fn raw_kind(raw: Seq<char>) -> RawKind {
    if starts_with_text(raw, "0|"@) || starts_with_text(raw, "1|"@) {
        RawKind::MarketData
    } else if is_pingpong_text(raw) {
        RawKind::PingPong
    } else {
        RawKind::Other
    }
}

/// Classify one raw message.
pub fn classify_raw(raw: &str) -> (r: RawKind)
    ensures
        r == raw_kind(raw@),
{
    if text_starts_with(raw, "0|") || text_starts_with(raw, "1|") {
        RawKind::MarketData
    } else if is_pingpong(raw) {
        RawKind::PingPong
    } else {
        RawKind::Other
    }
}

/// Reconnect backoff, in seconds: 1, 2, 4, 8, 16, then 30 from then on.
pub open spec fn backoff_secs(i: int) -> u64 {
    if i <= 0 { 1 } else if i == 1 { 2 } else if i == 2 { 4 } else if i == 3 { 8 } else if i == 4 { 16 } else { 30 }
}

/// The reconnect delays in order.
pub fn reconnect_delays_secs() -> (r: Vec<u64>)
    ensures
        r@.len() == 6,
        forall|i: int| 0 <= i < 6 ==> r@[i] == backoff_secs(i),
{
    vec![1, 2, 4, 8, 16, 30]
}

/// After a failed attempt at delay `index`, the next delay's index: one
/// further, capped at the last.
pub fn next_delay_index(index: usize, count: usize) -> (r: usize)
    requires
        count >= 1,
        index < count,
    ensures
        r == if index + 1 < count { index + 1 } else { count - 1 },
        r < count,
{
    if index + 1 < count { index + 1 } else { count - 1 }
}

/// The approval-key request body (`secretkey`, unlike the REST token's
/// `appsecret`), as (field, value) pairs.
pub fn approval_request_body(app_key: &str, app_secret: &str) -> (r: Vec<(&'static str, String)>)
    ensures
        r@.len() == 3,
        r@[0].0@ == "grant_type"@ && r@[0].1@ == "client_credentials"@,
        r@[1].0@ == "appkey"@ && r@[1].1@ == app_key@,
        r@[2].0@ == "secretkey"@ && r@[2].1@ == app_secret@,
{
    vec![
        ("grant_type", String::from_str("client_credentials")),
        ("appkey", String::from_str(app_key)),
        ("secretkey", String::from_str(app_secret)),
    ]
}

/// The approval key of the answer's `approval_key` field: present and
/// non-empty, else refused.
pub fn approval_key_from(field: Option<String>) -> (r: Result<String, String>)
    ensures
        match field {
            Some(k) => if k@.len() > 0 {
                r matches Ok(x) && x@ == k@
            } else {
                r matches Err(m) && m@ == "approval key missing from response"@
            },
            None => r matches Err(m) && m@ == "approval key missing from response"@,
        },
{
    match field {
        Some(k) => {
            if k.unicode_len() > 0 {
                Ok(k)
            } else {
                Err(String::from_str("approval key missing from response"))
            }
        },
        None => Err(String::from_str("approval key missing from response")),
    }
}

pub open spec fn ticker_views(s: Seq<Symbol>) -> Seq<Seq<char>> {
    Seq::new(s.len(), |i: int| s[i]@)
}

/// Six-digit tickers in strictly increasing order.
pub open spec fn tickers_sorted(s: Seq<Seq<char>>) -> bool {
    &&& forall|i: int| 0 <= i < s.len() ==> is_symbol_text(#[trigger] s[i])
    &&& forall|i: int, j: int| 0 <= i < j < s.len() ==> symbol_code(#[trigger] s[i]) < symbol_code(#[trigger] s[j])
}

/// The symbols the market-data client should be subscribed to. A reconnect
/// replays them in ticker order, so losing a connection never silently
/// stops market data.
pub struct DesiredSubscriptions {
    table: SymbolTable<()>,
}

impl View for DesiredSubscriptions {
    type V = Set<Seq<char>>;

    closed spec fn view(&self) -> Set<Seq<char>> {
        self.table@.dom()
    }
}

impl DesiredSubscriptions {
    /// The desired tickers in ticker order.
    pub closed spec fn listing(self) -> Seq<Seq<char>> {
        Seq::new(self.table.items().len(), |i: int| self.table.items()[i].0@)
    }

    pub fn new() -> (r: DesiredSubscriptions)
        ensures
            r@ == Set::<Seq<char>>::empty(),
    {
        let r = DesiredSubscriptions { table: SymbolTable::new() };
        assert(r@ =~= Set::<Seq<char>>::empty());
        r
    }

    pub fn subscribe(&mut self, symbol: &Symbol)
        ensures
            final(self)@ == old(self)@.insert(symbol@),
    {
        self.table.insert(symbol.duplicate(), ());
        assert(self@ =~= old(self)@.insert(symbol@));
    }

    pub fn unsubscribe(&mut self, symbol: &Symbol)
        ensures
            final(self)@ == old(self)@.remove(symbol@),
    {
        self.table.remove(symbol);
        assert(self@ =~= old(self)@.remove(symbol@));
    }

    pub fn contains(&self, symbol: &Symbol) -> (r: bool)
        ensures
            r == self@.contains(symbol@),
    {
        self.table.get(symbol).is_some()
    }

    /// The listing is the desired set, in strictly increasing ticker order.
    pub fn check_listing(&self)
        ensures
            tickers_sorted(self.listing()),
            forall|t: Seq<char>| self@.contains(t) <==> self.listing().contains(t),
    {
        self.table.check_items();
        let ghost items = self.table.items();
        assert forall|t: Seq<char>| self@.contains(t) <==> self.listing().contains(t) by {
            if self@.contains(t) {
                let c = choose|x: int| 0 <= x < items.len() && #[trigger] items[x].0@ == t;
                assert(self.listing()[c] == t);
            }
            if self.listing().contains(t) {
                let c = choose|x: int| 0 <= x < self.listing().len() && self.listing()[x] == t;
                assert(items[c].0@ == t);
            }
        }
    }

    /// The desired symbols in ticker order.
    pub fn symbols(&self) -> (r: Vec<Symbol>)
        ensures
            ticker_views(r@) == self.listing(),
    {
        let n = self.table.len();
        let mut out: Vec<Symbol> = Vec::new();
        let mut i: usize = 0;
        while i < n
            invariant
                n == self.table.items().len(),
                0 <= i <= n,
                out@.len() == i,
                forall|k: int| 0 <= k < i ==> (#[trigger] out@[k])@ == self.table.items()[k].0@,
            decreases n - i,
        {
            let item = self.table.item(i);
            out.push(item.0.duplicate());
            i = i + 1;
        }
        assert(ticker_views(out@) =~= self.listing());
        out
    }

    /// The subscribe messages that replay the desired state on a fresh
    /// connection, in ticker order.
    pub fn replay_messages(&self, approval_key: &str) -> (r: Vec<String>)
        ensures
            r@.len() == self.listing().len(),
            forall|i: int| 0 <= i < r@.len() ==> (#[trigger] r@[i])@
                == subscribe_text(approval_key@, "H0STCNT0"@, self.listing()[i], true),
    {
        let symbols = self.symbols();
        let mut out: Vec<String> = Vec::new();
        let mut i: usize = 0;
        while i < symbols.len()
            invariant
                ticker_views(symbols@) == self.listing(),
                0 <= i <= symbols@.len(),
                out@.len() == i,
                forall|k: int| 0 <= k < i ==> (#[trigger] out@[k])@
                    == subscribe_text(approval_key@, "H0STCNT0"@, self.listing()[k], true),
            decreases symbols@.len() - i,
        {
            let m = build_subscribe_message(approval_key, "H0STCNT0", symbols[i].as_str(), true);
            proof {
                assert(self.listing()[i as int] == symbols@[i as int]@);
            }
            out.push(m);
            i = i + 1;
        }
        out
    }
}

} // verus!

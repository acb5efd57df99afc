//! KIS REST shapes for the domestic-stock endpoints.
//!
//! tr_id per endpoint/environment, UPPERCASE string bodies, inquire-balance
//! pagination via the tr_cont response header, rt_cd != 0 = business
//! rejection (never retried), 401 → one token re-issue then retry.

use vstd::prelude::*;
use crate::broker::{BrokerError, ExecutionReport, Position};
use crate::broker::OrderRequest;
use crate::config::{debug_text, is_digit, parse_i64_spec, parse_i64};
use crate::decimal::{Dec, dec_of_int, decimal_checked_div, decimal_parse, decimal_text};
use crate::text::{int_text, i64_text, text_equal, u64_text};
use crate::types::{OrderSide, OrderType, Symbol, Timestamp, is_symbol_text};

verus! {

#[derive(Debug, Clone, Copy, PartialEq, Eq, Structural)]
pub enum ApiErrorKind {
    /// HTTP 200 but rt_cd != 0 — retrying cannot help.
    ApiReject,
    /// 401/403 — token re-issue, then give up.
    Auth,
    /// 429.
    RateLimited,
    /// 5xx.
    Server,
    /// Transport.
    Network,
    /// Unusable body.
    Malformed,
}

pub open spec fn api_kind_name(k: ApiErrorKind) -> Seq<char> {
    match k {
        ApiErrorKind::ApiReject => "ApiReject"@,
        ApiErrorKind::Auth => "Auth"@,
        ApiErrorKind::RateLimited => "RateLimited"@,
        ApiErrorKind::Server => "Server"@,
        ApiErrorKind::Network => "Network"@,
        ApiErrorKind::Malformed => "Malformed"@,
    }
}

#[derive(Debug, Clone)]
pub struct ApiError {
    pub kind: ApiErrorKind,
    pub message: String,
    pub msg_cd: Option<String>,
}

pub open spec fn api_error(kind: ApiErrorKind, message: Seq<char>) -> (ApiErrorKind, Seq<char>) {
    (kind, message)
}

pub open spec fn is_error(e: ApiError, kind: ApiErrorKind, message: Seq<char>) -> bool {
    e.kind == kind && e.message@ == message && e.msg_cd is None
}

fn malformed(message: &str) -> (r: ApiError)
    ensures
        is_error(r, ApiErrorKind::Malformed, message@),
{
    ApiError { kind: ApiErrorKind::Malformed, message: String::from_str(message), msg_cd: None }
}

impl ApiError {
    /// `"{kind:?}: {message}"`.
    pub fn text(&self) -> (r: String)
        ensures
            r@ == api_kind_name(self.kind) + ": "@ + self.message@,
    {
        proof {
            reveal_strlit("ApiReject");
            reveal_strlit("Auth");
            reveal_strlit("RateLimited");
            reveal_strlit("Server");
            reveal_strlit("Network");
            reveal_strlit("Malformed");
            reveal_strlit(": ");
        }
        let name = match self.kind {
            ApiErrorKind::ApiReject => "ApiReject",
            ApiErrorKind::Auth => "Auth",
            ApiErrorKind::RateLimited => "RateLimited",
            ApiErrorKind::Server => "Server",
            ApiErrorKind::Network => "Network",
            ApiErrorKind::Malformed => "Malformed",
        };
        let mut t = String::from_str(name);
        t.append(": ");
        t.append(self.message.as_str());
        t
    }

    /// A business rejection is a definitive venue refusal; everything else
    /// is an internal failure whose outcome is unknown.
    pub fn into_broker_error(&self) -> (r: BrokerError)
        ensures
            self.kind == ApiErrorKind::ApiReject ==> (r matches BrokerError::Rejected(t) && t@ == api_kind_name(self.kind) + ": "@ + self.message@),
            self.kind != ApiErrorKind::ApiReject ==> (r matches BrokerError::Internal(t) && t@ == api_kind_name(self.kind) + ": "@ + self.message@),
    {
        let t = self.text();
        match self.kind {
            ApiErrorKind::ApiReject => BrokerError::Rejected(t),
            _ => BrokerError::Internal(t),
        }
    }
}

/// The ASCII digits of a text, in order.
pub open spec fn digits_of(s: Seq<char>) -> Seq<char>
    decreases s.len(),
{
    if s.len() == 0 {
        Seq::empty()
    } else if is_digit(s.last()) {
        digits_of(s.drop_last()).push(s.last())
    } else {
        digits_of(s.drop_last())
    }
}

/// A 10-digit account number (any separators) split 8 + 2.
pub fn parse_account_number(account: &str) -> (r: Result<(String, String), BrokerError>)
    ensures
        digits_of(account@).len() != 10 ==> (r matches Err(BrokerError::Internal(t))
            && t@ == "KIS account number must be 10 digits (8-2), got "@ + debug_text(account@)),
        digits_of(account@).len() == 10 ==> (r matches Ok((c, p)) && c@ == digits_of(account@).take(8)
            && p@ == digits_of(account@).skip(8)),
{
    let n = account.unicode_len();
    let mut digits = String::new();
    let mut i: usize = 0;
    assert(account@.take(0) =~= Seq::<char>::empty());
    while i < n
        invariant
            n == account@.len(),
            0 <= i <= n,
            digits@ == digits_of(account@.take(i as int)),
        decreases n - i,
    {
        proof {
            assert(account@.take(i + 1).drop_last() =~= account@.take(i as int));
        }
        if is_digit_char(account.get_char(i)) {
            digits.append(account.substring_char(i, i + 1));
        }
        i = i + 1;
    }
    assert(account@.take(n as int) =~= account@);
    if digits.unicode_len() != 10 {
        let mut t = String::from_str("KIS account number must be 10 digits (8-2), got ");
        let q = crate::config::debug_quoted(account);
        t.append(q.as_str());
        proof {
            reveal_strlit("KIS account number must be 10 digits (8-2), got ");
        }
        return Err(BrokerError::Internal(t));
    }
    let d = digits.as_str();
    Ok((String::from_str(d.substring_char(0, 8)), String::from_str(d.substring_char(8, 10))))
}

fn is_digit_char(c: char) -> (r: bool)
    ensures
        r == is_digit(c),
{
    '0' <= c && c <= '9'
}

pub fn ord_dvsn(order_type: OrderType) -> (r: &'static str)
    ensures
        r@ == (if order_type == OrderType::Limit { "00"@ } else { "01"@ }),
{
    proof {
        reveal_strlit("00");
        reveal_strlit("01");
    }
    match order_type {
        OrderType::Limit => "00",
        OrderType::Market => "01",
    }
}

/// The order-cash tr_id for an environment and side.
pub fn order_tr_id(environment: &str, side: OrderSide) -> (r: &'static str)
    ensures
        r@ == (if environment@ == "real"@ {
            if side == OrderSide::Buy { "TTTC0012U"@ } else { "TTTC0011U"@ }
        } else {
            if side == OrderSide::Buy { "VTTC0012U"@ } else { "VTTC0011U"@ }
        }),
{
    proof {
        reveal_strlit("real");
        reveal_strlit("TTTC0012U");
        reveal_strlit("TTTC0011U");
        reveal_strlit("VTTC0012U");
        reveal_strlit("VTTC0011U");
    }
    let live = text_equal(environment, "real");
    match (live, side) {
        (true, OrderSide::Buy) => "TTTC0012U",
        (true, OrderSide::Sell) => "TTTC0011U",
        (false, OrderSide::Buy) => "VTTC0012U",
        (false, OrderSide::Sell) => "VTTC0011U",
    }
}

/// The tr_id of an account endpoint: `real` -> `TTTC…`, else `VTTC…`.
pub fn account_tr_id(environment: &str, real_id: &'static str, mock_id: &'static str) -> (r: &'static str)
    ensures
        r@ == (if environment@ == "real"@ { real_id@ } else { mock_id@ }),
{
    proof {
        reveal_strlit("real");
    }
    if text_equal(environment, "real") {
        real_id
    } else {
        mock_id
    }
}

/// What a response status means for the request loop.
pub enum StatusAction {
    Proceed,
    /// Drop the token, re-issue, and retry once.
    Reissue,
    Fail(ApiError),
}

pub open spec fn status_verdict(status: u16, reissued: bool) -> Option<Option<(ApiErrorKind, Seq<char>)>> {
    if status == 200 {
        Some(None)
    } else if (status == 401 || status == 403) && !reissued {
        None
    } else if status == 401 || status == 403 {
        Some(Some((ApiErrorKind::Auth, "token rejected after re-issue"@)))
    } else if status == 429 {
        Some(Some((ApiErrorKind::RateLimited, "rate limited"@)))
    } else if status >= 500 {
        Some(Some((ApiErrorKind::Server, "server error "@ + int_text(status as int))))
    } else {
        Some(Some((ApiErrorKind::Malformed, "unexpected status "@ + int_text(status as int))))
    }
}

/// Classify a response status (`Some(None)` proceed, `None` re-issue once,
/// `Some(Some(error))` fail).
pub fn classify_status(status: u16, reissued: bool) -> (r: StatusAction)
    ensures
        match status_verdict(status, reissued) {
            Some(None) => r is Proceed,
            None => r is Reissue,
            Some(Some((k, m))) => r matches StatusAction::Fail(e) && is_error(e, k, m),
        },
{
    proof {
        reveal_strlit("token rejected after re-issue");
        reveal_strlit("rate limited");
        reveal_strlit("server error ");
        reveal_strlit("unexpected status ");
    }
    if status == 200 {
        return StatusAction::Proceed;
    }
    if status == 401 || status == 403 {
        if !reissued {
            return StatusAction::Reissue;
        }
        return StatusAction::Fail(ApiError {
            kind: ApiErrorKind::Auth,
            message: String::from_str("token rejected after re-issue"),
            msg_cd: None,
        });
    }
    if status == 429 {
        return StatusAction::Fail(ApiError { kind: ApiErrorKind::RateLimited, message: String::from_str("rate limited"), msg_cd: None });
    }
    let head = if status >= 500 { "server error " } else { "unexpected status " };
    let mut m = String::from_str(head);
    let n = u64_text(status as u64);
    m.append(n.as_str());
    let kind = if status >= 500 { ApiErrorKind::Server } else { ApiErrorKind::Malformed };
    StatusAction::Fail(ApiError { kind, message: m, msg_cd: None })
}

/// The `rt_cd` of a response body: absent, a string, or another JSON value.
pub enum ResultCode {
    Absent,
    Text(String),
    Other,
}

/// A body is accepted when `rt_cd` is absent or the string `"0"`; otherwise
/// it is a business rejection carrying the rendered `rt_cd`, `msg_cd` and
/// `msg1` and the `msg_cd` string.
pub fn body_verdict(
    rt_cd: &ResultCode,
    rendered_rt_cd: &str,
    rendered_msg_cd: &str,
    rendered_msg1: &str,
    msg_cd: Option<String>,
) -> (r: Option<ApiError>)
    ensures
        (match rt_cd {
            ResultCode::Absent => true,
            ResultCode::Text(t) => t@ == "0"@,
            ResultCode::Other => false,
        }) ==> r is None,
        !(match rt_cd {
            ResultCode::Absent => true,
            ResultCode::Text(t) => t@ == "0"@,
            ResultCode::Other => false,
        }) ==> (r matches Some(e) && e.kind == ApiErrorKind::ApiReject && e.message@ == "KIS rejected: rt_cd="@
            + rendered_rt_cd@ + " msg_cd="@ + rendered_msg_cd@ + " msg1="@ + rendered_msg1@ && e.msg_cd == msg_cd),
{
    proof {
        reveal_strlit("0");
        reveal_strlit("KIS rejected: rt_cd=");
        reveal_strlit(" msg_cd=");
        reveal_strlit(" msg1=");
    }
    let accepted = match rt_cd {
        ResultCode::Absent => true,
        ResultCode::Text(t) => text_equal(t.as_str(), "0"),
        ResultCode::Other => false,
    };
    if accepted {
        return None;
    }
    let mut m = String::from_str("KIS rejected: rt_cd=");
    m.append(rendered_rt_cd);
    m.append(" msg_cd=");
    m.append(rendered_msg_cd);
    m.append(" msg1=");
    m.append(rendered_msg1);
    Some(ApiError { kind: ApiErrorKind::ApiReject, message: m, msg_cd })
}

/// The order-cash body as (field, value) pairs, in the official order.
pub open spec fn order_body_spec(cano: Seq<char>, prdt: Seq<char>, symbol: Seq<char>, order_type: OrderType, quantity: i64, limit: Option<Dec>) -> Seq<(Seq<char>, Seq<char>)> {
    seq![
        ("CANO"@, cano),
        ("ACNT_PRDT_CD"@, prdt),
        ("PDNO"@, symbol),
        ("ORD_DVSN"@, if order_type == OrderType::Limit { "00"@ } else { "01"@ }),
        ("ORD_QTY"@, int_text(quantity as int)),
        ("ORD_UNPR"@, match limit {
            Some(p) => decimal_text(p),
            None => "0"@,
        }),
        ("EXCG_ID_DVSN_CD"@, "KRX"@),
        ("SLL_TYPE"@, ""@),
        ("CNDT_PRIC"@, ""@),
    ]
}

pub open spec fn pair_views(s: Seq<(&'static str, String)>) -> Seq<(Seq<char>, Seq<char>)> {
    Seq::new(s.len(), |i: int| (s[i].0@, s[i].1@))
}

pub fn order_body(cano: &str, prdt: &str, order: &OrderRequest) -> (r: Vec<(&'static str, String)>)
    ensures
        pair_views(r@) == order_body_spec(cano@, prdt@, order.symbol@, order.order_type, order.quantity, order.limit_price),
{
    proof {
        reveal_strlit("CANO");
        reveal_strlit("ACNT_PRDT_CD");
        reveal_strlit("PDNO");
        reveal_strlit("ORD_DVSN");
        reveal_strlit("ORD_QTY");
        reveal_strlit("ORD_UNPR");
        reveal_strlit("EXCG_ID_DVSN_CD");
        reveal_strlit("SLL_TYPE");
        reveal_strlit("CNDT_PRIC");
        reveal_strlit("KRX");
        reveal_strlit("");
        reveal_strlit("0");
    }
    let price = match order.limit_price {
        Some(p) => p.to_text(),
        None => String::from_str("0"),
    };
    let r = vec![
        ("CANO", String::from_str(cano)),
        ("ACNT_PRDT_CD", String::from_str(prdt)),
        ("PDNO", String::from_str(order.symbol.as_str())),
        ("ORD_DVSN", String::from_str(ord_dvsn(order.order_type))),
        ("ORD_QTY", i64_text(order.quantity)),
        ("ORD_UNPR", price),
        ("EXCG_ID_DVSN_CD", String::from_str("KRX")),
        ("SLL_TYPE", String::new()),
        ("CNDT_PRIC", String::new()),
    ];
    let ghost want = order_body_spec(cano@, prdt@, order.symbol@, order.order_type, order.quantity, order.limit_price);
    assert(pair_views(r@)[0] == want[0]);
    assert(pair_views(r@)[1] == want[1]);
    assert(pair_views(r@)[2] == want[2]);
    assert(pair_views(r@)[3] == want[3]);
    assert(pair_views(r@)[4] == want[4]);
    assert(pair_views(r@)[5] == want[5]);
    assert(pair_views(r@)[6] == want[6]);
    assert(pair_views(r@)[7] == want[7]);
    assert(pair_views(r@)[8] == want[8]);
    assert(pair_views(r@) =~= order_body_spec(cano@, prdt@, order.symbol@, order.order_type, order.quantity, order.limit_price));
    r
}

/// The broker order number of an order-cash answer: `output.ODNO`,
/// non-empty.
pub fn order_number(odno: Option<String>) -> (r: Result<String, ApiError>)
    ensures
        match odno {
            Some(t) => if t@.len() > 0 {
                r matches Ok(x) && x@ == t@
            } else {
                r matches Err(e) && is_error(e, ApiErrorKind::Malformed, "order-cash response missing output.ODNO"@)
            },
            None => r matches Err(e) && is_error(e, ApiErrorKind::Malformed, "order-cash response missing output.ODNO"@),
        },
{
    proof {
        reveal_strlit("order-cash response missing output.ODNO");
    }
    match odno {
        Some(t) => {
            if t.unicode_len() > 0 {
                Ok(t)
            } else {
                Err(malformed("order-cash response missing output.ODNO"))
            }
        },
        None => Err(malformed("order-cash response missing output.ODNO")),
    }
}

/// Balance pagination continues while the `tr_cont` header is `M` or `F`.
pub fn balance_continues(tr_cont: Option<&str>) -> (r: bool)
    ensures
        r == (match tr_cont {
            Some(t) => t@ == "M"@ || t@ == "F"@,
            None => false,
        }),
{
    proof {
        reveal_strlit("M");
        reveal_strlit("F");
    }
    match tr_cont {
        Some(t) => text_equal(t, "M") || text_equal(t, "F"),
        None => false,
    }
}

/// The balance inquiry reads at most this many pages.
pub const BALANCE_PAGE_LIMIT: usize = 20;

/// After balance page `page` (counted from 0) came back with the `tr_cont`
/// header and the continuation keys `fk` and `nk`: the next request's keys
/// and `tr_cont` header (`N`), or `None` where the inquiry stops (the
/// venue sent no more pages, or the page limit is reached).
pub fn balance_next_page(page: usize, tr_cont: Option<&str>, fk: &str, nk: &str) -> (r: Option<(String, String, String)>)
    ensures
        page + 1 < BALANCE_PAGE_LIMIT && (match tr_cont {
            Some(t) => t@ == "M"@ || t@ == "F"@,
            None => false,
        }) ==> (r matches Some(x) && x.0@ == fk@ && x.1@ == nk@ && x.2@ == "N"@),
        !(page + 1 < BALANCE_PAGE_LIMIT && (match tr_cont {
            Some(t) => t@ == "M"@ || t@ == "F"@,
            None => false,
        })) ==> r is None,
{
    if page < BALANCE_PAGE_LIMIT - 1 && balance_continues(tr_cont) {
        proof {
            reveal_strlit("N");
        }
        Some((String::from_str(fk), String::from_str(nk), String::from_str("N")))
    } else {
        None
    }
}

/// One inquire-balance row's string fields (`None` where not a string).
pub struct BalanceRow {
    pub hldg_qty: Option<String>,
    pub pdno: Option<String>,
    pub pchs_avg_pric: Option<String>,
}

/// Held quantity of a row: its parsed `hldg_qty`, else 0.
pub open spec fn row_quantity(row: BalanceRow) -> i64 {
    match row.hldg_qty {
        Some(t) => match parse_i64_spec(t@) {
            Some(n) => n,
            None => 0,
        },
        None => 0,
    }
}

/// Average price of a row: its parsed `pchs_avg_pric`, else 0.
pub open spec fn row_average(row: BalanceRow) -> Dec {
    match row.pchs_avg_pric {
        Some(t) => match decimal_parse(t@) {
            Some(d) => d,
            None => dec_of_int(0),
        },
        None => dec_of_int(0),
    }
}

pub open spec fn row_symbol(row: BalanceRow) -> Seq<char> {
    match row.pdno {
        Some(t) => t@,
        None => Seq::empty(),
    }
}

/// The positions the rows hold: rows with a positive quantity, in order;
/// the first of them whose symbol is not a ticker refuses the whole answer.
pub open spec fn positions_outcome(rows: Seq<BalanceRow>) -> Result<Seq<(Seq<char>, i64, Dec)>, Seq<char>>
    decreases rows.len(),
{
    if rows.len() == 0 {
        Ok(Seq::empty())
    } else {
        match positions_outcome(rows.drop_last()) {
            Err(m) => Err(m),
            Ok(before) => {
                let row = rows.last();
                if row_quantity(row) <= 0 {
                    Ok(before)
                } else if !is_symbol_text(row_symbol(row)) {
                    Err("balance row bad symbol "@ + row_symbol(row))
                } else {
                    Ok(before.push((row_symbol(row), row_quantity(row), row_average(row))))
                }
            },
        }
    }
}

pub open spec fn position_views(s: Seq<Position>) -> Seq<(Seq<char>, i64, Dec)> {
    Seq::new(s.len(), |i: int| (s[i].symbol@, s[i].quantity, s[i].average_price))
}

pub fn positions_from_rows(rows: &Vec<BalanceRow>) -> (r: Result<Vec<Position>, ApiError>)
    ensures
        match positions_outcome(rows@) {
            Ok(v) => r matches Ok(p) && position_views(p@) == v,
            Err(m) => r matches Err(e) && is_error(e, ApiErrorKind::Malformed, m),
        },
{
    proof {
        reveal_strlit("balance row bad symbol ");
    }
    let mut out: Vec<Position> = Vec::new();
    let mut i: usize = 0;
    assert(rows@.take(0) =~= Seq::<BalanceRow>::empty());
    assert(position_views(out@) =~= Seq::<(Seq<char>, i64, Dec)>::empty());
    while i < rows.len()
        invariant
            0 <= i <= rows@.len(),
            positions_outcome(rows@.take(i as int)) == Ok::<Seq<(Seq<char>, i64, Dec)>, Seq<char>>(position_views(out@)),
        decreases rows.len() - i,
    {
        proof {
            assert(rows@.take(i + 1).drop_last() =~= rows@.take(i as int));
            assert(rows@.take(i + 1).last() == rows@[i as int]);
        }
        let row = &rows[i];
        let quantity: i64 = match &row.hldg_qty {
            Some(t) => match parse_i64(t.as_str()) {
                Some(n) => n,
                None => 0,
            },
            None => 0,
        };
        if quantity > 0 {
            let symbol_text = match &row.pdno {
                Some(t) => t.clone(),
                None => String::new(),
            };
            let average = match &row.pchs_avg_pric {
                Some(t) => match Dec::parse(t.as_str()) {
                    Some(d) => d,
                    None => Dec::zero(),
                },
                None => Dec::zero(),
            };
            match Symbol::parse(symbol_text.as_str()) {
                Ok(symbol) => {
                    let ghost before = position_views(out@);
                    out.push(Position { symbol, quantity, average_price: average });
                    assert(position_views(out@) =~= before.push((symbol_text@, quantity, average)));
                },
                Err(_) => {
                    let mut m = String::from_str("balance row bad symbol ");
                    m.append(symbol_text.as_str());
                    proof {
                        lemma_positions_err_extends(rows@, i + 1);
                        assert(rows@.take(rows@.len() as int) =~= rows@);
                    }
                    return Err(ApiError { kind: ApiErrorKind::Malformed, message: m, msg_cd: None });
                },
            }
        }
        i = i + 1;
    }
    assert(rows@.take(rows@.len() as int) =~= rows@);
    Ok(out)
}

/// Once a prefix of the rows is refused, the whole answer is, with the same
/// message.
pub proof fn lemma_positions_err_extends(rows: Seq<BalanceRow>, k: int)
    requires
        0 <= k <= rows.len(),
        positions_outcome(rows.take(k)) is Err,
    ensures
        positions_outcome(rows) == positions_outcome(rows.take(k)),
    decreases rows.len() - k,
{
    if k < rows.len() {
        assert(rows.take(k + 1).drop_last() =~= rows.take(k));
        lemma_positions_err_extends(rows, k + 1);
    } else {
        assert(rows.take(k) =~= rows);
    }
}

/// The last price of an inquire-price answer (`output.stck_prpr`).
pub fn quote_price(stck_prpr: Option<String>) -> (r: Result<Dec, ApiError>)
    ensures
        match stck_prpr {
            None => r matches Err(e) && is_error(e, ApiErrorKind::Malformed, "inquire-price missing stck_prpr"@),
            Some(t) => match decimal_parse(t@) {
                Some(d) => r == Ok::<Dec, ApiError>(d),
                None => r matches Err(e) && is_error(e, ApiErrorKind::Malformed, "stck_prpr not a number: "@ + t@),
            },
        },
{
    proof {
        reveal_strlit("inquire-price missing stck_prpr");
        reveal_strlit("stck_prpr not a number: ");
    }
    let raw = match stck_prpr {
        Some(t) => t,
        None => return Err(malformed("inquire-price missing stck_prpr")),
    };
    match Dec::parse(raw.as_str()) {
        Some(d) => Ok(d),
        None => {
            let mut m = String::from_str("stck_prpr not a number: ");
            m.append(raw.as_str());
            Err(ApiError { kind: ApiErrorKind::Malformed, message: m, msg_cd: None })
        },
    }
}

/// One inquire-daily-ccld row's string fields (`None` where absent or not
/// a string).
pub struct CcldRow {
    pub pdno: Option<String>,
    pub ord_qty: Option<String>,
    pub tot_ccld_qty: Option<String>,
    pub cncl_yn: Option<String>,
    pub tot_ccld_amt: Option<String>,
    pub sll_buy_dvsn_cd: Option<String>,
    pub ord_dvsn_cd: Option<String>,
}

pub open spec fn text_of(f: Option<String>) -> Option<Seq<char>> {
    match f {
        Some(t) => Some(t@),
        None => None,
    }
}

pub open spec fn missing(name: Seq<char>) -> Seq<char> {
    "ccld row missing "@ + name
}

/// A ccld row read as an execution report, as plain values; failing loud on
/// missing fields, in the order they are read.
pub open spec fn report_outcome(row: CcldRow) -> Result<(Seq<char>, i64, i64, Option<Dec>, OrderSide, OrderType, bool), Seq<char>> {
    match text_of(row.pdno) {
        None => Err(missing("pdno"@)),
        Some(pdno) => if !is_symbol_text(pdno) {
            Err("ccld row bad pdno"@)
        } else {
            match text_of(row.ord_qty) {
                None => Err(missing("ord_qty"@)),
                Some(q) => match parse_i64_spec(q) {
                    None => Err("ccld row bad ord_qty"@),
                    Some(order_quantity) => {
                        let filled: i64 = match parse_i64_spec(match text_of(row.tot_ccld_qty) {
                            Some(t) => t,
                            None => "0"@,
                        }) {
                            Some(n) => n,
                            None => 0,
                        };
                        let cancelled = text_of(row.cncl_yn) == Some("Y"@);
                        let average: Result<Option<Dec>, Seq<char>> = if filled > 0 {
                            match text_of(row.tot_ccld_amt) {
                                None => Err(missing("tot_ccld_amt"@)),
                                Some(amount) => match decimal_parse(amount) {
                                    None => Err("ccld row bad tot_ccld_amt: "@ + amount),
                                    Some(a) => Ok(decimal_checked_div(a, dec_of_int(filled as int))),
                                },
                            }
                        } else {
                            Ok(None)
                        };
                        match average {
                            Err(m) => Err(m),
                            Ok(avg) => match text_of(row.sll_buy_dvsn_cd) {
                                None => Err(missing("sll_buy_dvsn_cd"@)),
                                Some(code) => Ok(
                                    (
                                        pdno,
                                        order_quantity,
                                        filled,
                                        avg,
                                        if code == "02"@ { OrderSide::Buy } else { OrderSide::Sell },
                                        if text_of(row.ord_dvsn_cd) == Some("00"@) { OrderType::Limit } else { OrderType::Market },
                                        !cancelled && filled < order_quantity,
                                    ),
                                ),
                            },
                        }
                    },
                },
            }
        },
    }
}

fn field(f: &Option<String>, name: &str) -> (r: Result<String, ApiError>)
    ensures
        match text_of(*f) {
            Some(t) => r matches Ok(x) && x@ == t,
            None => r matches Err(e) && is_error(e, ApiErrorKind::Malformed, missing(name@)),
        },
{
    match f {
        Some(t) => Ok(t.clone()),
        None => {
            let mut m = String::from_str("ccld row missing ");
            m.append(name);
            proof {
                reveal_strlit("ccld row missing ");
            }
            Err(ApiError { kind: ApiErrorKind::Malformed, message: m, msg_cd: None })
        },
    }
}

/// Map a ccld row into an execution report stamped `now`; fails loud on
/// missing fields. The average fill price is the filled amount over the
/// filled quantity (`None` where that division overflows).
#[verifier::rlimit(40)]
pub fn execution_report_from_row(broker_order_id: &str, client_order_id: &str, row: &CcldRow, now: Timestamp) -> (r: Result<ExecutionReport, ApiError>)
    ensures
        match report_outcome(*row) {
            Err(m) => r matches Err(e) && is_error(e, ApiErrorKind::Malformed, m),
            Ok((sym, ordered, filled, avg, side, order_type, open)) => r matches Ok(rep) && rep.broker_order_id@ == broker_order_id@
                && rep.client_order_id@ == client_order_id@ && rep.symbol@ == sym && rep.order_quantity == ordered
                && rep.filled_quantity == filled && rep.average_fill_price == avg && rep.side == side
                && rep.order_type == order_type && rep.open == open && rep.timestamp == now,
        },
{
    proof {
        reveal_strlit("pdno");
        reveal_strlit("ord_qty");
        reveal_strlit("tot_ccld_amt");
        reveal_strlit("sll_buy_dvsn_cd");
        reveal_strlit("ccld row bad pdno");
        reveal_strlit("ccld row bad ord_qty");
        reveal_strlit("ccld row bad tot_ccld_amt: ");
        reveal_strlit("0");
        reveal_strlit("Y");
        reveal_strlit("02");
        reveal_strlit("00");
    }
    let pdno = field(&row.pdno, "pdno")?;
    let symbol = match Symbol::parse(pdno.as_str()) {
        Ok(s) => s,
        Err(_) => return Err(malformed("ccld row bad pdno")),
    };
    let q = field(&row.ord_qty, "ord_qty")?;
    let order_quantity = match parse_i64(q.as_str()) {
        Some(n) => n,
        None => return Err(malformed("ccld row bad ord_qty")),
    };
    let filled_text = match &row.tot_ccld_qty {
        Some(t) => t.clone(),
        None => String::from_str("0"),
    };
    let filled: i64 = match parse_i64(filled_text.as_str()) {
        Some(n) => n,
        None => 0,
    };
    let cancelled = match &row.cncl_yn {
        Some(t) => text_equal(t.as_str(), "Y"),
        None => false,
    };
    let average_fill_price = if filled > 0 {
        let amount = field(&row.tot_ccld_amt, "tot_ccld_amt")?;
        match Dec::parse(amount.as_str()) {
            Some(a) => a.checked_div(&Dec::from_i64(filled)),
            None => {
                let mut m = String::from_str("ccld row bad tot_ccld_amt: ");
                m.append(amount.as_str());
                return Err(ApiError { kind: ApiErrorKind::Malformed, message: m, msg_cd: None });
            },
        }
    } else {
        None
    };
    let code = field(&row.sll_buy_dvsn_cd, "sll_buy_dvsn_cd")?;
    let side = if text_equal(code.as_str(), "02") { OrderSide::Buy } else { OrderSide::Sell };
    let order_type = match &row.ord_dvsn_cd {
        Some(t) => if text_equal(t.as_str(), "00") { OrderType::Limit } else { OrderType::Market },
        None => OrderType::Market,
    };
    Ok(ExecutionReport {
        broker_order_id: String::from_str(broker_order_id),
        client_order_id: String::from_str(client_order_id),
        symbol,
        side,
        order_type,
        order_quantity,
        filled_quantity: filled,
        average_fill_price,
        open: !cancelled && filled < order_quantity,
        timestamp: now,
    })
}

} // verus!

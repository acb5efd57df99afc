//! 거래량순위(FHPST01710000) — the liquidity screener over the KIS ranking
//! endpoint. The request itself carries the risk filters (the exclusion
//! bit string removes risky names server-side); the reply rows are mapped
//! here, failing loudly on a row without a code field.

use vstd::prelude::*;
use crate::config::{parse_i64, parse_i64_spec};

verus! {

pub const SCREENER_PATH: &'static str = "/uapi/domestic-stock/v1/quotations/volume-rank";
pub const SCREENER_TR_ID: &'static str = "FHPST01710000";

/// 10자리 제외 플래그(서버측 위험 필터), 순서대로:
/// 투자위험/경고/주의=1, 관리종목=1, 정리매매=1, 불성실공시=1, 우선주=1,
/// 거래정지=1, ETF=0(유지 — KODEX 등), ETN=1, 신용주문불가=0, SPAC=1
pub const EXLS_RISK_OFF: &'static str = "1111110101";
/// 가격대 하한/상한(잡주 필터): 2,000원 ~ 1,000,000원.
pub const PRICE_MIN: &'static str = "2000";
pub const PRICE_MAX: &'static str = "1000000";

/// The ranking query: traded-value order, all targets, the risk
/// exclusions and the price band.
pub fn screener_query() -> (r: Vec<(&'static str, &'static str)>)
    ensures
        r@.len() == 11,
        r@[0].0@ == "FID_COND_MRKT_DIV_CODE"@ && r@[0].1@ == "J"@,
        r@[1].0@ == "FID_COND_SCR_DIV_CODE"@ && r@[1].1@ == "20171"@,
        r@[2].0@ == "FID_INPUT_ISCD"@ && r@[2].1@ == "0000"@,
        r@[3].0@ == "FID_DIV_CLS_CODE"@ && r@[3].1@ == "0"@,
        r@[4].0@ == "FID_BLNG_CLS_CODE"@ && r@[4].1@ == "3"@,
        r@[5].0@ == "FID_TRGT_CLS_CODE"@ && r@[5].1@ == "111111111"@,
        r@[6].0@ == "FID_TRGT_EXLS_CLS_CODE"@ && r@[6].1@ == EXLS_RISK_OFF@,
        r@[7].0@ == "FID_INPUT_PRICE_1"@ && r@[7].1@ == PRICE_MIN@,
        r@[8].0@ == "FID_INPUT_PRICE_2"@ && r@[8].1@ == PRICE_MAX@,
        r@[9].0@ == "FID_VOL_CNT"@ && r@[9].1@ == "0"@,
        r@[10].0@ == "FID_INPUT_DATE_1"@ && r@[10].1@ == ""@,
{
    vec![
        ("FID_COND_MRKT_DIV_CODE", "J"),
        ("FID_COND_SCR_DIV_CODE", "20171"),
        ("FID_INPUT_ISCD", "0000"),
        ("FID_DIV_CLS_CODE", "0"),
        ("FID_BLNG_CLS_CODE", "3"),
        ("FID_TRGT_CLS_CODE", "111111111"),
        ("FID_TRGT_EXLS_CLS_CODE", EXLS_RISK_OFF),
        ("FID_INPUT_PRICE_1", PRICE_MIN),
        ("FID_INPUT_PRICE_2", PRICE_MAX),
        ("FID_VOL_CNT", "0"),
        ("FID_INPUT_DATE_1", ""),
    ]
}

#[derive(Debug, Clone)]
pub struct RankedSymbol {
    pub code: String,
    pub name: String,
    /// 누적 거래대금(원).
    pub traded_value: i64,
}

/// The string fields of one ranking row (absent where the row has no such
/// string field), and the row as JSON text for error messages.
#[derive(Debug, Clone)]
pub struct RankRow {
    pub mksc_shrn_iscd: Option<String>,
    pub stck_shrn_iscd: Option<String>,
    pub hts_kor_isnm: Option<String>,
    pub acml_tr_pbmn: Option<String>,
    pub text: String,
}

pub open spec fn opt_text(f: Option<String>) -> Option<Seq<char>> {
    match f {
        Some(t) => Some(t@),
        None => None,
    }
}

/// A row's code (the first of the documented code fields present), name
/// (empty when absent) and traded value (zero unless an integer).
pub open spec fn rank_row_outcome(row: RankRow) -> Result<(Seq<char>, Seq<char>, i64), Seq<char>> {
    let code = match opt_text(row.mksc_shrn_iscd) {
        Some(c) => Some(c),
        None => opt_text(row.stck_shrn_iscd),
    };
    match code {
        None => Err("순위 행에 종목코드 없음(실증 대기 필드명): "@ + row.text@),
        Some(c) => Ok((
            c,
            match opt_text(row.hts_kor_isnm) { Some(n) => n, None => Seq::empty() },
            match opt_text(row.acml_tr_pbmn) {
                Some(t) => match parse_i64_spec(t) { Some(v) => v, None => 0 },
                None => 0,
            },
        )),
    }
}

pub open spec fn rank_views(s: Seq<RankedSymbol>) -> Seq<(Seq<char>, Seq<char>, i64)> {
    Seq::new(s.len(), |i: int| (s[i].code@, s[i].name@, s[i].traded_value))
}

/// The first `top` rows mapped in order; the first row without a code
/// refuses the whole answer.
pub open spec fn ranking_outcome(rows: Seq<RankRow>, k: nat) -> Result<Seq<(Seq<char>, Seq<char>, i64)>, Seq<char>>
    decreases k,
{
    if k == 0 {
        Ok(Seq::empty())
    } else {
        match ranking_outcome(rows, (k - 1) as nat) {
            Err(m) => Err(m),
            Ok(before) => match rank_row_outcome(rows[k - 1]) {
                Err(m) => Err(m),
                Ok(x) => Ok(before.push(x)),
            },
        }
    }
}

proof fn lemma_ranking_err_extends(rows: Seq<RankRow>, k: nat, m: nat)
    requires
        k <= m,
        ranking_outcome(rows, k) is Err,
    ensures
        ranking_outcome(rows, m) == ranking_outcome(rows, k),
    decreases m - k,
{
    if k < m {
        lemma_ranking_err_extends(rows, k, (m - 1) as nat);
    }
}

/// The top `top` ranking rows as ranked symbols.
pub fn ranked_symbols(rows: &Vec<RankRow>, top: usize) -> (r: Result<Vec<RankedSymbol>, String>)
    ensures
        match ranking_outcome(rows@, if top < rows@.len() { top as nat } else { rows@.len() }) {
            Ok(v) => r matches Ok(x) && rank_views(x@) == v,
            Err(m) => r matches Err(x) && x@ == m,
        },
{
    let n: usize = if top < rows.len() { top } else { rows.len() };
    let mut out: Vec<RankedSymbol> = Vec::new();
    let mut i: usize = 0;
    assert(rank_views(out@) =~= Seq::<(Seq<char>, Seq<char>, i64)>::empty());
    while i < n
        invariant
            n as nat == (if top < rows@.len() { top as nat } else { rows@.len() }),
            n <= rows@.len(),
            0 <= i <= n,
            ranking_outcome(rows@, i as nat) == Ok::<Seq<(Seq<char>, Seq<char>, i64)>, Seq<char>>(rank_views(out@)),
        decreases n - i,
    {
        let row = &rows[i];
        let code = match &row.mksc_shrn_iscd {
            Some(c) => Some(c.clone()),
            None => match &row.stck_shrn_iscd {
                Some(c) => Some(c.clone()),
                None => None,
            },
        };
        match code {
            None => {
                let mut m = String::from_str("순위 행에 종목코드 없음(실증 대기 필드명): ");
                m.append(row.text.as_str());
                proof {
                    assert(ranking_outcome(rows@, (i + 1) as nat) is Err);
                    lemma_ranking_err_extends(rows@, (i + 1) as nat, n as nat);
                }
                return Err(m);
            },
            Some(code) => {
                let name = match &row.hts_kor_isnm {
                    Some(t) => t.clone(),
                    None => String::new(),
                };
                let traded_value = match &row.acml_tr_pbmn {
                    Some(t) => match parse_i64(t.as_str()) {
                        Some(v) => v,
                        None => 0,
                    },
                    None => 0,
                };
                let ghost before = rank_views(out@);
                out.push(RankedSymbol { code, name, traded_value });
                assert(rank_views(out@) =~= before.push(rank_row_outcome(rows@[i as int])->Ok_0));
            },
        }
        i = i + 1;
    }
    Ok(out)
}

} // verus!

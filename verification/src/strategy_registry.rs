//! Strategy registry — the catalog of runnable strategies.
//!
//! One place answers "what can I run?" and turns a key into a configured
//! instance with canonical default parameters.

use vstd::prelude::*;
use crate::decimal::{Dec, dec_of_int};
use crate::strategies::{DonchianBreakoutStrategy, RsiReversionStrategy, SmaCrossStrategy};
use crate::strategies2::{BollingerReversionStrategy, MacdCrossStrategy, MomentumRotationStrategy};
use crate::strategy::symbol_texts;
use crate::text::text_equal;
use crate::types::{Quantity, Symbol};

verus! {

/// A catalog entry: identity + human-facing description of the defaults.
#[derive(Debug, Clone, Copy)]
pub struct StrategySpec {
    /// Stable identifier used by APIs and the backtest form.
    pub key: &'static str,
    pub name: &'static str,
    pub description: &'static str,
    /// Default parameters in prose ("SMA 5/20").
    pub params: &'static str,
}

/// The catalog as (key, name, description, params), in display order.
pub open spec fn catalog() -> Seq<(Seq<char>, Seq<char>, Seq<char>, Seq<char>)> {
    seq![
        ("sma-cross"@, "SMA 교차"@, "단기 이동평균이 장기를 상향 돌파하면 매수, 하향 돌파하면 매도"@, "빠름 5 · 느림 20"@),
        ("rsi-reversion"@, "RSI 역행"@, "과매도(하한 돌파)에서 매수, 과매수(상한 돌파)에서 매도"@, "기간 14 · 30/70"@),
        ("donchian-breakout"@, "돈키안 브레이크아웃"@, "N일 최고가 돌파 매수, N일 최저가 하회 매도"@, "기간 20"@),
        ("bollinger-reversion"@, "볼린저 밴드 역행"@, "밴드 하단 이탈에서 매수, 상단 접근에서 매도"@, "기간 20 · 2σ"@),
        ("momentum-rotation"@, "12-1 모멘텀 로테이션"@, "12개월 수익률 상위 종목으로 포지션을 회전"@, "상위 1종목 · 1개월 리밸런스"@),
        ("macd-cross"@, "MACD 교차"@, "MACD 신호선 상향 교차 매수, 하향 교차 매도"@, "12/26/9"@),
    ]
}

pub open spec fn spec_fields(s: StrategySpec) -> (Seq<char>, Seq<char>, Seq<char>, Seq<char>) {
    (s.key@, s.name@, s.description@, s.params@)
}

fn entry(key: &'static str, name: &'static str, description: &'static str, params: &'static str) -> (r: StrategySpec)
    ensures
        spec_fields(r) == (key@, name@, description@, params@),
{
    StrategySpec { key, name, description, params }
}

pub fn registry() -> (r: Vec<StrategySpec>)
    ensures
        r@.len() == catalog().len(),
        forall|i: int| 0 <= i < r@.len() ==> spec_fields(#[trigger] r@[i]) == catalog()[i],
{
    let r = vec![
        entry("sma-cross", "SMA 교차", "단기 이동평균이 장기를 상향 돌파하면 매수, 하향 돌파하면 매도", "빠름 5 · 느림 20"),
        entry("rsi-reversion", "RSI 역행", "과매도(하한 돌파)에서 매수, 과매수(상한 돌파)에서 매도", "기간 14 · 30/70"),
        entry("donchian-breakout", "돈키안 브레이크아웃", "N일 최고가 돌파 매수, N일 최저가 하회 매도", "기간 20"),
        entry("bollinger-reversion", "볼린저 밴드 역행", "밴드 하단 이탈에서 매수, 상단 접근에서 매도", "기간 20 · 2σ"),
        entry("momentum-rotation", "12-1 모멘텀 로테이션", "12개월 수익률 상위 종목으로 포지션을 회전", "상위 1종목 · 1개월 리밸런스"),
        entry("macd-cross", "MACD 교차", "MACD 신호선 상향 교차 매수, 하향 교차 매도", "12/26/9"),
    ];
    assert forall|i: int| 0 <= i < r@.len() implies spec_fields(#[trigger] r@[i]) == catalog()[i] by {
        assert(r@[0] == r[0]);
    }
    r
}

/// Look up a catalog entry by key.
pub fn find(key: &str) -> (r: Option<StrategySpec>)
    ensures
        match r {
            Some(s) => exists|i: int| 0 <= i < catalog().len() && spec_fields(s) == #[trigger] catalog()[i] && catalog()[i].0 == key@
                && forall|j: int| 0 <= j < i ==> #[trigger] catalog()[j].0 != key@,
            None => forall|i: int| 0 <= i < catalog().len() ==> #[trigger] catalog()[i].0 != key@,
        },
{
    let specs = registry();
    let mut i: usize = 0;
    while i < specs.len()
        invariant
            0 <= i <= specs@.len(),
            specs@.len() == catalog().len(),
            forall|k: int| 0 <= k < specs@.len() ==> spec_fields(#[trigger] specs@[k]) == catalog()[k],
            forall|j: int| 0 <= j < i ==> #[trigger] catalog()[j].0 != key@,
        decreases specs.len() - i,
    {
        if text_equal(specs[i].key, key) {
            assert(spec_fields(specs@[i as int]) == catalog()[i as int]);
            return Some(specs[i]);
        }
        assert(spec_fields(specs@[i as int]) == catalog()[i as int]);
        i = i + 1;
    }
    None
}

/// A strategy built from the catalog.
pub enum BuiltStrategy {
    SmaCross(SmaCrossStrategy),
    RsiReversion(RsiReversionStrategy),
    DonchianBreakout(DonchianBreakoutStrategy),
    BollingerReversion(BollingerReversionStrategy),
    MomentumRotation(MomentumRotationStrategy),
    MacdCross(MacdCrossStrategy),
}

pub fn copy_symbols(symbols: &Vec<Symbol>) -> (r: Vec<Symbol>)
    ensures
        symbol_texts(r@) == symbol_texts(symbols@),
{
    let mut out: Vec<Symbol> = Vec::new();
    let mut i: usize = 0;
    while i < symbols.len()
        invariant
            0 <= i <= symbols@.len(),
            out@.len() == i,
            forall|j: int| 0 <= j < i ==> #[trigger] out@[j]@ == symbols@[j]@,
        decreases symbols.len() - i,
    {
        out.push(symbols[i].duplicate());
        i = i + 1;
    }
    assert(symbol_texts(out@) =~= symbol_texts(symbols@));
    out
}

/// Build a strategy instance by key with canonical defaults.
pub fn build(key: &str, symbols: &Vec<Symbol>, quantity: Quantity) -> (r: Option<BuiltStrategy>)
    ensures
        ({
            let syms = symbol_texts(symbols@);
            if key@ == "sma-cross"@ {
                r matches Some(BuiltStrategy::SmaCross(s)) && s.symbol_list() == syms && s.periods() == (5usize, 20usize)
                    && s.order_quantity() == quantity
            } else if key@ == "rsi-reversion"@ {
                r matches Some(BuiltStrategy::RsiReversion(s)) && s.symbol_list() == syms
                    && s.settings() == (14usize, dec_of_int(30), dec_of_int(70), quantity)
            } else if key@ == "donchian-breakout"@ {
                r matches Some(BuiltStrategy::DonchianBreakout(s)) && s.symbol_list() == syms
                    && s.settings() == (20usize, quantity)
            } else if key@ == "bollinger-reversion"@ {
                r matches Some(BuiltStrategy::BollingerReversion(s)) && s.symbol_list() == syms
                    && s.settings() == (20usize, dec_of_int(2), quantity)
            } else if key@ == "momentum-rotation"@ {
                r matches Some(BuiltStrategy::MomentumRotation(s)) && s.symbol_list() == syms
                    && s.settings() == (1usize, quantity)
            } else if key@ == "macd-cross"@ {
                r matches Some(BuiltStrategy::MacdCross(s)) && s.symbol_list() == syms
                    && s.settings() == (12usize, 26usize, 9usize, quantity)
            } else {
                r is None
            }
        }),
{
    proof {
        reveal_strlit("sma-cross");
        reveal_strlit("rsi-reversion");
        reveal_strlit("donchian-breakout");
        reveal_strlit("bollinger-reversion");
        reveal_strlit("momentum-rotation");
        reveal_strlit("macd-cross");
    }
    let list = copy_symbols(symbols);
    if text_equal(key, "sma-cross") {
        Some(BuiltStrategy::SmaCross(SmaCrossStrategy::new(list, 5, 20, quantity)))
    } else if text_equal(key, "rsi-reversion") {
        Some(BuiltStrategy::RsiReversion(RsiReversionStrategy::new(list, 14, Dec::from_i64(30), Dec::from_i64(70), quantity)))
    } else if text_equal(key, "donchian-breakout") {
        Some(BuiltStrategy::DonchianBreakout(DonchianBreakoutStrategy::new(list, 20, quantity)))
    } else if text_equal(key, "bollinger-reversion") {
        Some(BuiltStrategy::BollingerReversion(BollingerReversionStrategy::new(list, 20, Dec::from_i64(2), quantity)))
    } else if text_equal(key, "momentum-rotation") {
        Some(BuiltStrategy::MomentumRotation(MomentumRotationStrategy::new(list, 1, quantity)))
    } else if text_equal(key, "macd-cross") {
        Some(BuiltStrategy::MacdCross(MacdCrossStrategy::new(list, 12, 26, 9, quantity)))
    } else {
        None
    }
}

} // verus!

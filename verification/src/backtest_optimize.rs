//! Parameter grids for the walk-forward search — machine-tuned defaults for
//! strategies.
//!
//! Each registered strategy has a small, curated and bounded grid of
//! candidate parameter sets; the canonical default is always part of it as
//! the baseline every combo must beat.

use vstd::prelude::*;
use crate::decimal::{Dec, dec_eq, dec_le, dec_lt, dec_of_int, dec_parts, num_diff, pow10, lemma_pow10_positive};
use crate::strategies::{DonchianBreakoutStrategy, RsiReversionStrategy, SmaCrossStrategy};
use crate::strategies2::{BollingerReversionStrategy, MacdCrossStrategy, MomentumRotationStrategy, TabledBollinger};
use crate::backtest::{Bar, BarView, BacktestConfig, BacktestEngine, BacktestResult, bar_views};
use crate::broker::mock::{MockBroker, MockView};
use crate::types::Timestamp;
use crate::strategy::{Strategy, symbol_texts};
use crate::strategy_registry::{BuiltStrategy, catalog, copy_symbols};
use crate::text::{int_text, text_equal, u64_text};
use crate::types::{Quantity, Symbol};

verus! {

/// The parameters of one candidate.
#[derive(Debug, Clone, Copy)]
pub enum StrategyParams {
    SmaCross { fast: usize, slow: usize },
    RsiReversion { period: usize, oversold: i64, overbought: i64 },
    DonchianBreakout { period: usize },
    BollingerReversion { period: usize, sigma: Dec },
    MacdCross { fast: usize, slow: usize, signal: usize },
    MomentumRotation { top_n: usize },
}

/// Parameters the strategies accept.
pub open spec fn params_valid(p: StrategyParams) -> bool {
    match p {
        StrategyParams::SmaCross { fast, slow } => fast < slow,
        StrategyParams::DonchianBreakout { period } => period > 0,
        StrategyParams::MacdCross { fast, slow, .. } => fast <= slow,
        _ => true,
    }
}

/// One candidate parameter set: a human label, whether it is the canonical
/// default, and the parameters.
#[derive(Debug)]
pub struct ParamSet {
    label: String,
    /// True when this is the strategy's canonical default (always included
    /// as the baseline every combo must beat).
    is_default: bool,
    params: StrategyParams,
}

impl ParamSet {
    #[verifier::type_invariant]
    spec fn valid(self) -> bool {
        params_valid(self.params)
    }

    pub closed spec fn parameters(self) -> StrategyParams {
        self.params
    }

    pub closed spec fn label_text(self) -> Seq<char> {
        self.label@
    }

    pub closed spec fn default_flag(self) -> bool {
        self.is_default
    }

    pub fn label(&self) -> (r: &str)
        ensures
            r@ == self.label_text(),
    {
        self.label.as_str()
    }

    pub fn is_default(&self) -> (r: bool)
        ensures
            r == self.default_flag(),
    {
        self.is_default
    }

    pub fn new(label: String, is_default: bool, params: StrategyParams) -> (r: ParamSet)
        requires
            params_valid(params),
        ensures
            r.label_text() == label@,
            r.default_flag() == is_default,
            r.parameters() == params,
    {
        ParamSet { label, is_default, params }
    }

    pub fn duplicate(&self) -> (r: ParamSet)
        ensures
            r.label_text() == self.label_text(),
            r.default_flag() == self.default_flag(),
            r.parameters() == self.parameters(),
    {
        proof {
            use_type_invariant(self);
        }
        ParamSet { label: self.label.clone(), is_default: self.is_default, params: self.params }
    }

    pub fn params(&self) -> (r: StrategyParams)
        ensures
            r == self.parameters(),
            params_valid(r),
    {
        proof {
            use_type_invariant(self);
        }
        self.params
    }

    /// The strategy with these parameters for the symbols.
    pub fn build(&self, symbols: &Vec<Symbol>, quantity: Quantity) -> (r: BuiltStrategy)
        ensures
            builds(self.parameters(), symbols@, quantity, r),
    {
        proof {
            use_type_invariant(self);
        }
        let list = copy_symbols(symbols);
        match self.params {
            StrategyParams::SmaCross { fast, slow } => BuiltStrategy::SmaCross(SmaCrossStrategy::new(list, fast, slow, quantity)),
            StrategyParams::RsiReversion { period, oversold, overbought } => BuiltStrategy::RsiReversion(
                RsiReversionStrategy::new(list, period, Dec::from_i64(oversold), Dec::from_i64(overbought), quantity),
            ),
            StrategyParams::DonchianBreakout { period } => BuiltStrategy::DonchianBreakout(
                DonchianBreakoutStrategy::new(list, period, quantity),
            ),
            StrategyParams::BollingerReversion { period, sigma } => BuiltStrategy::BollingerReversion(
                BollingerReversionStrategy::new(list, period, sigma, quantity),
            ),
            StrategyParams::MacdCross { fast, slow, signal } => BuiltStrategy::MacdCross(
                MacdCrossStrategy::new(list, fast, slow, signal, quantity),
            ),
            StrategyParams::MomentumRotation { top_n } => BuiltStrategy::MomentumRotation(
                MomentumRotationStrategy::new(list, top_n, quantity),
            ),
        }
    }
}

pub open spec fn set_view(p: ParamSet) -> (Seq<char>, bool, StrategyParams) {
    (p.label_text(), p.default_flag(), p.parameters())
}

pub open spec fn sma_item(fast: usize, slow: usize) -> (Seq<char>, bool, StrategyParams) {
    (int_text(fast as int) + "/"@ + int_text(slow as int), false, StrategyParams::SmaCross { fast, slow })
}

pub open spec fn rsi_item(period: usize, low: i64, high: i64) -> (Seq<char>, bool, StrategyParams) {
    (
        int_text(period as int) + "·"@ + int_text(low as int) + "/"@ + int_text(high as int),
        false,
        StrategyParams::RsiReversion { period, oversold: low, overbought: high },
    )
}

pub open spec fn donchian_item(period: usize) -> (Seq<char>, bool, StrategyParams) {
    (int_text(period as int) + "일"@, period == 20, StrategyParams::DonchianBreakout { period })
}

pub open spec fn bollinger_item(period: usize, sigma_text: Seq<char>, sigma: Dec, is_default: bool) -> (Seq<char>, bool, StrategyParams) {
    (int_text(period as int) + "·"@ + sigma_text + "σ"@, is_default, StrategyParams::BollingerReversion { period, sigma })
}

pub open spec fn macd_item(fast: usize, slow: usize, signal: usize) -> (Seq<char>, bool, StrategyParams) {
    (
        int_text(fast as int) + "/"@ + int_text(slow as int) + "/"@ + int_text(signal as int),
        fast == 12,
        StrategyParams::MacdCross { fast, slow, signal },
    )
}

pub open spec fn momentum_item(top_n: usize) -> (Seq<char>, bool, StrategyParams) {
    ("상위 "@ + int_text(top_n as int), top_n == 1, StrategyParams::MomentumRotation { top_n })
}

/// The grid of a strategy key, in order; empty for an unknown key.
pub open spec fn grid_spec(key: Seq<char>) -> Seq<(Seq<char>, bool, StrategyParams)> {
    let sigma15 = dec_parts(15, 1);
    let sigma2 = dec_parts(2, 0);
    let sigma25 = dec_parts(25, 1);
    if key == "sma-cross"@ {
        seq![
            ("기본 5/20"@, true, StrategyParams::SmaCross { fast: 5, slow: 20 }),
            sma_item(3, 20), sma_item(7, 20), sma_item(10, 20),
            sma_item(3, 30), sma_item(7, 30), sma_item(10, 30),
            sma_item(3, 40), sma_item(7, 40), sma_item(10, 40),
            sma_item(3, 60), sma_item(7, 60), sma_item(10, 60),
        ]
    } else if key == "rsi-reversion"@ {
        seq![
            ("기본 14·30/70"@, true, StrategyParams::RsiReversion { period: 14, oversold: 30, overbought: 70 }),
            rsi_item(7, 30, 70), rsi_item(7, 25, 75), rsi_item(7, 20, 80),
            rsi_item(14, 25, 75), rsi_item(14, 20, 80),
            rsi_item(21, 30, 70), rsi_item(21, 25, 75), rsi_item(21, 20, 80),
        ]
    } else if key == "donchian-breakout"@ {
        seq![donchian_item(10), donchian_item(20), donchian_item(30), donchian_item(40), donchian_item(55)]
    } else if key == "bollinger-reversion"@ {
        seq![
            bollinger_item(10, "1.5"@, sigma15, false), bollinger_item(10, "2"@, sigma2, false), bollinger_item(10, "2.5"@, sigma25, false),
            bollinger_item(20, "1.5"@, sigma15, false), bollinger_item(20, "2"@, sigma2, true), bollinger_item(20, "2.5"@, sigma25, false),
            bollinger_item(30, "1.5"@, sigma15, false), bollinger_item(30, "2"@, sigma2, false), bollinger_item(30, "2.5"@, sigma25, false),
        ]
    } else if key == "macd-cross"@ {
        seq![macd_item(12, 26, 9), macd_item(8, 17, 9), macd_item(10, 20, 9), macd_item(5, 35, 5)]
    } else if key == "momentum-rotation"@ {
        seq![momentum_item(1), momentum_item(2), momentum_item(3)]
    } else {
        Seq::empty()
    }
}

/// How many entries of a grid are marked as the default.
pub open spec fn default_count(g: Seq<(Seq<char>, bool, StrategyParams)>) -> nat
    decreases g.len(),
{
    if g.len() == 0 {
        0
    } else {
        default_count(g.drop_last()) + if g.last().1 { 1nat } else { 0nat }
    }
}

/// A grid exists exactly for the strategies of the catalog, and each grid
/// marks exactly one entry as the default baseline.
pub proof fn grids_cover_the_catalog(key: Seq<char>)
    ensures
        grid_spec(key).len() > 0 <==> exists|i: int| 0 <= i < catalog().len() && #[trigger] catalog()[i].0 == key,
        grid_spec(key).len() > 0 ==> default_count(grid_spec(key)) == 1,
{
    reveal_with_fuel(default_count, 14);
    if exists|i: int| 0 <= i < catalog().len() && #[trigger] catalog()[i].0 == key {
        let i = choose|i: int| 0 <= i < catalog().len() && #[trigger] catalog()[i].0 == key;
        assert(0 <= i < 6);
    }
    if key == "sma-cross"@ {
        assert(catalog()[0].0 == key);
    } else if key == "rsi-reversion"@ {
        assert(catalog()[1].0 == key);
    } else if key == "donchian-breakout"@ {
        assert(catalog()[2].0 == key);
    } else if key == "bollinger-reversion"@ {
        assert(catalog()[3].0 == key);
    } else if key == "momentum-rotation"@ {
        assert(catalog()[4].0 == key);
    } else if key == "macd-cross"@ {
        assert(catalog()[5].0 == key);
    }
}

fn number(n: usize) -> (r: String)
    ensures
        r@ == int_text(n as int),
{
    u64_text(n as u64)
}

fn join3(a: &str, b: &str, c: &str) -> (r: String)
    ensures
        r@ == a@ + b@ + c@,
{
    let mut s = String::from_str(a);
    s.append(b);
    s.append(c);
    s
}

fn sma_set(fast: usize, slow: usize) -> (r: ParamSet)
    requires
        fast < slow,
    ensures
        set_view(r) == sma_item(fast, slow),
{
    let f = number(fast);
    let s = number(slow);
    let label = join3(f.as_str(), "/", s.as_str());
    proof {
        reveal_strlit("/");
    }
    ParamSet::new(label, false, StrategyParams::SmaCross { fast, slow })
}

fn rsi_set(period: usize, low: i64, high: i64) -> (r: ParamSet)
    requires
        low >= 0,
        high >= 0,
    ensures
        set_view(r) == rsi_item(period, low, high),
{
    let p = number(period);
    let l = u64_text(low as u64);
    let h = u64_text(high as u64);
    let head = join3(p.as_str(), "·", l.as_str());
    let label = join3(head.as_str(), "/", h.as_str());
    proof {
        reveal_strlit("·");
        reveal_strlit("/");
    }
    ParamSet::new(label, false, StrategyParams::RsiReversion { period, oversold: low, overbought: high })
}

fn donchian_set(period: usize) -> (r: ParamSet)
    requires
        period > 0,
    ensures
        set_view(r) == donchian_item(period),
{
    let p = number(period);
    let label = join3(p.as_str(), "일", "");
    proof {
        reveal_strlit("일");
        reveal_strlit("");
    }
    ParamSet::new(label, period == 20, StrategyParams::DonchianBreakout { period })
}

fn bollinger_set(period: usize, sigma_text: &str, sigma: Dec, is_default: bool) -> (r: ParamSet)
    ensures
        set_view(r) == bollinger_item(period, sigma_text@, sigma, is_default),
{
    let p = number(period);
    let head = join3(p.as_str(), "·", sigma_text);
    let label = join3(head.as_str(), "σ", "");
    proof {
        reveal_strlit("·");
        reveal_strlit("σ");
        reveal_strlit("");
    }
    ParamSet::new(label, is_default, StrategyParams::BollingerReversion { period, sigma })
}

fn macd_set(fast: usize, slow: usize, signal: usize) -> (r: ParamSet)
    requires
        fast <= slow,
    ensures
        set_view(r) == macd_item(fast, slow, signal),
{
    let f = number(fast);
    let s = number(slow);
    let g = number(signal);
    let head = join3(f.as_str(), "/", s.as_str());
    let label = join3(head.as_str(), "/", g.as_str());
    proof {
        reveal_strlit("/");
    }
    ParamSet::new(label, fast == 12, StrategyParams::MacdCross { fast, slow, signal })
}

fn momentum_set(top_n: usize) -> (r: ParamSet)
    ensures
        set_view(r) == momentum_item(top_n),
{
    let n = number(top_n);
    let label = join3("상위 ", n.as_str(), "");
    proof {
        reveal_strlit("상위 ");
        reveal_strlit("");
    }
    ParamSet::new(label, top_n == 1, StrategyParams::MomentumRotation { top_n })
}

/// The decimals 1.5, 2 and 2.5 as `Decimal::from_str_exact` writes them.
fn sigma_choices() -> (r: (Dec, Dec, Dec))
    ensures
        r == (dec_parts(15, 1), dec_parts(2, 0), dec_parts(25, 1)),
{
    (Dec::from_parts(15, 1).unwrap(), Dec::from_parts(2, 0).unwrap(), Dec::from_parts(25, 1).unwrap())
}

/// The parameter grid per strategy key — small, curated, and bounded
/// (at most 16 combos) so a full walk-forward stays in low minutes.
pub fn param_grid(strategy_key: &str) -> (r: Vec<ParamSet>)
    ensures
        r@.len() == grid_spec(strategy_key@).len(),
        forall|i: int| 0 <= i < r@.len() ==> set_view(#[trigger] r@[i]) == grid_spec(strategy_key@)[i],
{
    proof {
        reveal_strlit("sma-cross");
        reveal_strlit("rsi-reversion");
        reveal_strlit("donchian-breakout");
        reveal_strlit("bollinger-reversion");
        reveal_strlit("macd-cross");
        reveal_strlit("momentum-rotation");
        reveal_strlit("기본 5/20");
        reveal_strlit("기본 14·30/70");
        reveal_strlit("1.5");
        reveal_strlit("2");
        reveal_strlit("2.5");
    }
    let (s15, s2, s25) = sigma_choices();
    let r = if text_equal(strategy_key, "sma-cross") {
        vec![
            ParamSet::new(String::from_str("기본 5/20"), true, StrategyParams::SmaCross { fast: 5, slow: 20 }),
            sma_set(3, 20), sma_set(7, 20), sma_set(10, 20),
            sma_set(3, 30), sma_set(7, 30), sma_set(10, 30),
            sma_set(3, 40), sma_set(7, 40), sma_set(10, 40),
            sma_set(3, 60), sma_set(7, 60), sma_set(10, 60),
        ]
    } else if text_equal(strategy_key, "rsi-reversion") {
        vec![
            ParamSet::new(String::from_str("기본 14·30/70"), true, StrategyParams::RsiReversion { period: 14, oversold: 30, overbought: 70 }),
            rsi_set(7, 30, 70), rsi_set(7, 25, 75), rsi_set(7, 20, 80),
            rsi_set(14, 25, 75), rsi_set(14, 20, 80),
            rsi_set(21, 30, 70), rsi_set(21, 25, 75), rsi_set(21, 20, 80),
        ]
    } else if text_equal(strategy_key, "donchian-breakout") {
        vec![donchian_set(10), donchian_set(20), donchian_set(30), donchian_set(40), donchian_set(55)]
    } else if text_equal(strategy_key, "bollinger-reversion") {
        vec![
            bollinger_set(10, "1.5", s15, false), bollinger_set(10, "2", s2, false), bollinger_set(10, "2.5", s25, false),
            bollinger_set(20, "1.5", s15, false), bollinger_set(20, "2", s2, true), bollinger_set(20, "2.5", s25, false),
            bollinger_set(30, "1.5", s15, false), bollinger_set(30, "2", s2, false), bollinger_set(30, "2.5", s25, false),
        ]
    } else if text_equal(strategy_key, "macd-cross") {
        vec![macd_set(12, 26, 9), macd_set(8, 17, 9), macd_set(10, 20, 9), macd_set(5, 35, 5)]
    } else if text_equal(strategy_key, "momentum-rotation") {
        vec![momentum_set(1), momentum_set(2), momentum_set(3)]
    } else {
        Vec::new()
    };
    r
}

/// `<=` on decimal values is transitive.
pub proof fn lemma_dec_le_transitive(a: Dec, b: Dec, c: Dec)
    requires
        dec_le(a, b),
        dec_le(b, c),
    ensures
        dec_le(a, c),
{
    let (am, bm, cm) = (a.mant(), b.mant(), c.mant());
    let (pa, pb, pc) = (pow10(a.sc()), pow10(b.sc()), pow10(c.sc()));
    lemma_pow10_positive(a.sc());
    lemma_pow10_positive(b.sc());
    lemma_pow10_positive(c.sc());
    assert(am * pb <= bm * pa);
    assert(bm * pc <= cm * pb);
    assert(am * pc <= cm * pa) by (nonlinear_arith)
        requires
            am * pb <= bm * pa,
            bm * pc <= cm * pb,
            pa > 0,
            pb > 0,
            pc > 0,
    {
        assert(am * pb * pc <= bm * pa * pc);
        assert(bm * pc * pa <= cm * pb * pa);
        assert(am * pc * pb <= cm * pa * pb);
    }
}

/// `ranked` lists `0..n` once each, by value from the highest, with equal
/// values in index order.
pub open spec fn ranks_by_value(ranked: Seq<usize>, values: Seq<Dec>) -> bool {
    &&& ranked.len() == values.len()
    &&& forall|i: int| 0 <= i < ranked.len() ==> (#[trigger] ranked[i]) < values.len()
    &&& forall|i: int, j: int| 0 <= i < j < ranked.len() ==> ranked[i] != ranked[j]
    &&& forall|i: int, j: int| 0 <= i < j < ranked.len() ==> dec_le(values[ranked[j] as int], values[ranked[i] as int])
    &&& forall|i: int, j: int| 0 <= i < j < ranked.len() && dec_eq(values[ranked[i] as int], values[ranked[j] as int])
        ==> ranked[i] < ranked[j]
}

/// The indices of `values` from the highest value down; equal values keep
/// their order (a stable descending ranking).
pub fn rank_by_value(values: &Vec<Dec>) -> (r: Vec<usize>)
    ensures
        ranks_by_value(r@, values@),
{
    let n = values.len();
    let mut ranked: Vec<usize> = Vec::new();
    let mut k: usize = 0;
    while k < n
        invariant
            n == values@.len(),
            0 <= k <= n,
            ranked@.len() == k,
            forall|i: int| 0 <= i < ranked@.len() ==> (#[trigger] ranked@[i]) < k,
            forall|i: int, j: int| 0 <= i < j < ranked@.len() ==> ranked@[i] != ranked@[j],
            forall|i: int, j: int| 0 <= i < j < ranked@.len() ==> dec_le(values@[ranked@[j] as int], values@[ranked@[i] as int]),
            forall|i: int, j: int| 0 <= i < j < ranked@.len() && dec_eq(values@[ranked@[i] as int], values@[ranked@[j] as int])
                ==> ranked@[i] < ranked@[j],
        decreases n - k,
    {
        let v = values[k];
        let mut p: usize = 0;
        while p < ranked.len() && !values[ranked[p]].lt(&v)
            invariant
                n == values@.len(),
                k < n,
                v == values@[k as int],
                0 <= p <= ranked@.len(),
                ranked@.len() == k,
                forall|i: int| 0 <= i < ranked@.len() ==> (#[trigger] ranked@[i]) < k,
                forall|q: int| 0 <= q < p ==> !dec_lt(#[trigger] values@[ranked@[q] as int], v),
            decreases ranked@.len() - p,
        {
            p = p + 1;
        }
        let ghost old_ranked = ranked@;
        proof {
            assert forall|q: int| p <= q < old_ranked.len() implies dec_lt(#[trigger] values@[old_ranked[q] as int], v) by {
                if p < old_ranked.len() {
                    assert(dec_lt(values@[old_ranked[p as int] as int], v));
                    if q > p {
                        assert(dec_le(values@[old_ranked[q] as int], values@[old_ranked[p as int] as int]));
                        lemma_dec_le_transitive(values@[old_ranked[q] as int], values@[old_ranked[p as int] as int], v);
                        assert(num_diff(values@[old_ranked[q] as int], v) <= 0);
                        assert(num_diff(values@[old_ranked[p as int] as int], v) < 0);
                        lemma_lt_after_le(values@[old_ranked[q] as int], values@[old_ranked[p as int] as int], v);
                    }
                }
            }
        }
        ranked.insert(p, k);
        proof {
            let r = ranked@;
            assert(r == old_ranked.insert(p as int, k));
            assert forall|i: int| 0 <= i < r.len() implies (#[trigger] r[i]) < k + 1 by {
                if i < p {
                    assert(r[i] == old_ranked[i]);
                } else if i > p {
                    assert(r[i] == old_ranked[i - 1]);
                }
            }
            assert forall|i: int, j: int| 0 <= i < j < r.len() implies r[i] != r[j] by {
                if i < p && j < p {
                } else if i < p && j == p {
                    assert(r[i] == old_ranked[i]);
                } else if i < p && j > p {
                    assert(r[i] == old_ranked[i]);
                    assert(r[j] == old_ranked[j - 1]);
                } else if i == p {
                    assert(r[j] == old_ranked[j - 1]);
                } else {
                    assert(r[i] == old_ranked[i - 1]);
                    assert(r[j] == old_ranked[j - 1]);
                }
            }
            assert forall|i: int, j: int| 0 <= i < j < r.len() implies dec_le(values@[r[j] as int], values@[r[i] as int])
                && (dec_eq(values@[r[i] as int], values@[r[j] as int]) ==> r[i] < r[j]) by {
                if j < p {
                    assert(r[i] == old_ranked[i] && r[j] == old_ranked[j]);
                } else if j == p {
                    assert(r[i] == old_ranked[i]);
                    assert(!dec_lt(values@[old_ranked[i] as int], v));
                } else if i < p {
                    assert(r[i] == old_ranked[i] && r[j] == old_ranked[j - 1]);
                    assert(!dec_lt(values@[old_ranked[i] as int], v));
                    assert(dec_lt(values@[old_ranked[j - 1] as int], v));
                } else if i == p {
                    assert(r[j] == old_ranked[j - 1]);
                    assert(dec_lt(values@[old_ranked[j - 1] as int], v));
                } else {
                    assert(r[i] == old_ranked[i - 1] && r[j] == old_ranked[j - 1]);
                }
            }
        }
        k = k + 1;
    }
    ranked
}

/// `a <= b < c` gives `a < c`.
proof fn lemma_lt_after_le(a: Dec, b: Dec, c: Dec)
    requires
        dec_le(a, b),
        dec_lt(b, c),
    ensures
        dec_lt(a, c),
{
    let (am, bm, cm) = (a.mant(), b.mant(), c.mant());
    let (pa, pb, pc) = (pow10(a.sc()), pow10(b.sc()), pow10(c.sc()));
    lemma_pow10_positive(a.sc());
    lemma_pow10_positive(b.sc());
    lemma_pow10_positive(c.sc());
    assert(am * pb <= bm * pa);
    assert(bm * pc < cm * pb);
    assert(am * pc < cm * pa) by (nonlinear_arith)
        requires
            am * pb <= bm * pa,
            bm * pc < cm * pb,
            pa > 0,
            pb > 0,
            pc > 0,
    {
        assert(am * pb * pc <= bm * pa * pc);
        assert(bm * pc * pa < cm * pb * pa);
        assert(am * pc * pb < cm * pa * pb);
    }
}

/// The first index whose flag is set.
pub open spec fn first_flagged(flags: Seq<bool>) -> Option<int>
    decreases flags.len(),
{
    if flags.len() == 0 {
        None
    } else if flags[0] {
        Some(0)
    } else {
        match first_flagged(flags.skip(1)) {
            Some(i) => Some(i + 1),
            None => None,
        }
    }
}

/// The sets kept for validation: the first `survivors` of the training
/// ranking, then the (first) default set when it is not among them.
pub open spec fn kept_spec(ranked: Seq<usize>, defaults: Seq<bool>, survivors: nat) -> Seq<usize> {
    let top = ranked.take(if survivors < ranked.len() { survivors as int } else { ranked.len() as int });
    match first_flagged(defaults) {
        Some(d) => if top.contains(d as usize) { top } else { top.push(d as usize) },
        None => top,
    }
}

fn first_default(defaults: &Vec<bool>) -> (r: Option<usize>)
    ensures
        match first_flagged(defaults@) {
            Some(d) => r == Some(d as usize),
            None => r is None,
        },
{
    let mut i: usize = 0;
    assert(defaults@.skip(0) =~= defaults@);
    while i < defaults.len()
        invariant
            0 <= i <= defaults@.len(),
            match first_flagged(defaults@) {
                Some(d) => match first_flagged(defaults@.skip(i as int)) {
                    Some(e) => d == e + i,
                    None => false,
                },
                None => first_flagged(defaults@.skip(i as int)) is None,
            },
        decreases defaults.len() - i,
    {
        proof {
            assert(defaults@.skip(i as int)[0] == defaults@[i as int]);
            assert(defaults@.skip(i as int).skip(1) =~= defaults@.skip(i + 1));
        }
        if defaults[i] {
            return Some(i);
        }
        i = i + 1;
    }
    None
}

/// The parameter sets kept for validation, by index: the `survivors` best
/// by training result, plus the default as the baseline.
pub fn kept_for_validation(ranked: &Vec<usize>, defaults: &Vec<bool>, survivors: usize) -> (r: Vec<usize>)
    ensures
        r@ == kept_spec(ranked@, defaults@, survivors as nat),
{
    let end = if survivors < ranked.len() { survivors } else { ranked.len() };
    let mut top: Vec<usize> = Vec::new();
    let mut i: usize = 0;
    while i < end
        invariant
            end <= ranked@.len(),
            0 <= i <= end,
            top@ == ranked@.take(i as int),
        decreases end - i,
    {
        top.push(ranked[i]);
        i = i + 1;
        assert(top@ =~= ranked@.take(i as int));
    }
    match first_default(defaults) {
        Some(d) => {
            let mut present = false;
            let mut j: usize = 0;
            while j < top.len()
                invariant
                    0 <= j <= top@.len(),
                    present == top@.take(j as int).contains(d),
                decreases top.len() - j,
            {
                let ghost s0 = top@.take(j as int);
                let ghost s1 = top@.take(j + 1);
                proof {
                    assert(s1 =~= s0.push(top@[j as int]));
                    if s0.contains(d) {
                        let w = choose|w: int| 0 <= w < s0.len() && s0[w] == d;
                        assert(s1[w] == d);
                    }
                    if top@[j as int] == d {
                        assert(s1[j as int] == d);
                    }
                    if s1.contains(d) {
                        let w = choose|w: int| 0 <= w < s1.len() && s1[w] == d;
                        if w < j {
                            assert(s0[w] == d);
                        }
                    }
                    assert(s1.contains(d) == (s0.contains(d) || top@[j as int] == d));
                }
                if top[j] == d {
                    present = true;
                }
                j = j + 1;
            }
            assert(top@.take(j as int) =~= top@);
            if !present {
                top.push(d);
            }
            top
        },
        None => top,
    }
}

/// Why a walk-forward cannot run: no grid for the strategy, too few bars,
/// or a training (first `cut` bars) or validation window too short.
pub open spec fn walk_forward_refusal(strategy_key: Seq<char>, grid_len: nat, bars: nat, cut: nat) -> Option<Seq<char>> {
    if grid_len == 0 {
        Some("전략 '"@ + strategy_key + "'에 정의된 파라미터 격자가 없음"@)
    } else if bars < 120 {
        Some("봉 부족: "@ + int_text(bars as int) + "개 (120 이상 필요)"@)
    } else if cut < 60 || bars - cut < 30 {
        Some("훈련/검증 구간이 너무 짧음"@)
    } else {
        None
    }
}

pub fn walk_forward_check(strategy_key: &str, grid_len: usize, bars: usize, cut: usize) -> (r: Result<(), String>)
    requires
        cut <= bars,
    ensures
        match walk_forward_refusal(strategy_key@, grid_len as nat, bars as nat, cut as nat) {
            Some(m) => r matches Err(t) && t@ == m,
            None => r is Ok,
        },
{
    proof {
        reveal_strlit("전략 '");
        reveal_strlit("'에 정의된 파라미터 격자가 없음");
        reveal_strlit("봉 부족: ");
        reveal_strlit("개 (120 이상 필요)");
        reveal_strlit("훈련/검증 구간이 너무 짧음");
    }
    if grid_len == 0 {
        let mut t = String::from_str("전략 '");
        t.append(strategy_key);
        t.append("'에 정의된 파라미터 격자가 없음");
        return Err(t);
    }
    if bars < 120 {
        let mut t = String::from_str("봉 부족: ");
        let n = u64_text(bars as u64);
        t.append(n.as_str());
        t.append("개 (120 이상 필요)");
        return Err(t);
    }
    if cut < 60 || bars - cut < 30 {
        return Err(String::from_str("훈련/검증 구간이 너무 짧음"));
    }
    Ok(())
}


/// The strategy a parameter set builds for `symbols`, trading `quantity`.
pub open spec fn builds(params: StrategyParams, symbols: Seq<Symbol>, quantity: Quantity, r: BuiltStrategy) -> bool {
    match (params, r) {
                (StrategyParams::SmaCross { fast, slow }, BuiltStrategy::SmaCross(s)) => s.symbol_list() == symbol_texts(symbols)
                    && s.periods() == (fast, slow) && s.order_quantity() == quantity,
                (StrategyParams::RsiReversion { period, oversold, overbought }, BuiltStrategy::RsiReversion(s)) => s.symbol_list()
                    == symbol_texts(symbols) && s.settings() == (period, dec_of_int(oversold as int), dec_of_int(
                    overbought as int,
                ), quantity),
                (StrategyParams::DonchianBreakout { period }, BuiltStrategy::DonchianBreakout(s)) => s.symbol_list() == symbol_texts(
                    symbols,
                ) && s.settings() == (period, quantity),
                (StrategyParams::BollingerReversion { period, sigma }, BuiltStrategy::BollingerReversion(s)) => s.symbol_list()
                    == symbol_texts(symbols) && s.settings() == (period, sigma, quantity),
                (StrategyParams::MacdCross { fast, slow, signal }, BuiltStrategy::MacdCross(s)) => s.symbol_list() == symbol_texts(
                    symbols,
                ) && s.settings() == (fast, slow, signal, quantity),
                (StrategyParams::MomentumRotation { top_n }, BuiltStrategy::MomentumRotation(s)) => s.symbol_list() == symbol_texts(
                    symbols,
                ) && s.settings() == (top_n, quantity),
                _ => false,
            }
}

/// The text of a run that stopped because an exact amount overflowed.
pub open spec fn overflow_text() -> Seq<char> {
    "정밀 금액 계산 범위 초과"@
}

/// A fresh in-memory venue: no prices, orders, reports or positions.
pub open spec fn fresh_venue() -> MockView {
    MockView {
        prices: Map::empty(),
        acks: Seq::empty(),
        reports: Seq::empty(),
        positions: Map::empty(),
        next_broker_id: 1,
    }
}

/// `r` is what a run of `strategy` over `bars` gives, with `config`, no
/// risk layer, a fresh venue priced by each bar's close, at `now`.
pub open spec fn runs_as<S: Strategy>(strategy: S, config: BacktestConfig, bars: Seq<BarView>, now: Timestamp, r: Option<BacktestResult>) -> bool {
    exists|e: BacktestEngine<S>, m1: MockView|
        e.strategy_spec() == strategy && e.settings() == config && e.prices_bars() && e.risk_free()
            && #[trigger] e.run_result(bars, fresh_venue(), now, r, m1)
}

/// `r` is what a backtest of the built strategy gives (a Bollinger
/// strategy looking its roots up in `roots`).
#[verifier::opaque]
pub open spec fn backtest_of(
    strategy: BuiltStrategy,
    config: BacktestConfig,
    bars: Seq<BarView>,
    roots: Seq<(Dec, Dec)>,
    now: Timestamp,
    r: Option<BacktestResult>,
) -> bool {
    match strategy {
        BuiltStrategy::SmaCross(s) => runs_as(s, config, bars, now, r),
        BuiltStrategy::RsiReversion(s) => runs_as(s, config, bars, now, r),
        BuiltStrategy::DonchianBreakout(s) => runs_as(s, config, bars, now, r),
        BuiltStrategy::MomentumRotation(s) => runs_as(s, config, bars, now, r),
        BuiltStrategy::MacdCross(s) => runs_as(s, config, bars, now, r),
        BuiltStrategy::BollingerReversion(s) => exists|t: TabledBollinger|
            t.inner() == s && t.table() == roots && #[trigger] runs_as(t, config, bars, now, r),
    }
}

/// One backtest of a built strategy against a fresh in-memory venue
/// priced by each bar's close. A Bollinger strategy looks each window's
/// standard deviation up in `roots` (variance, root).
pub fn backtest_built(
    strategy: BuiltStrategy,
    config: BacktestConfig,
    bars: Vec<Bar>,
    roots: &Vec<(Dec, Dec)>,
    now: Timestamp,
) -> (r: Option<BacktestResult>)
    requires
        config.history_capacity > 0,
    ensures
        backtest_of(strategy, config, bar_views(bars@), roots@, now, r),
{
    let ghost views = bar_views(bars@);
    let mut broker = MockBroker::new();
    proof {
        reveal(backtest_of);
        assert(broker@ == fresh_venue());
    }
    match strategy {
        BuiltStrategy::SmaCross(s) => {
            let engine = BacktestEngine::new(s, config).with_bar_pricing();
            let r = engine.run(bars, &mut broker, now);
            proof {
                assert(engine.run_result(views, fresh_venue(), now, r, broker@));
            }
            r
        },
        BuiltStrategy::RsiReversion(s) => {
            let engine = BacktestEngine::new(s, config).with_bar_pricing();
            let r = engine.run(bars, &mut broker, now);
            proof {
                assert(engine.run_result(views, fresh_venue(), now, r, broker@));
            }
            r
        },
        BuiltStrategy::DonchianBreakout(s) => {
            let engine = BacktestEngine::new(s, config).with_bar_pricing();
            let r = engine.run(bars, &mut broker, now);
            proof {
                assert(engine.run_result(views, fresh_venue(), now, r, broker@));
            }
            r
        },
        BuiltStrategy::MomentumRotation(s) => {
            let engine = BacktestEngine::new(s, config).with_bar_pricing();
            let r = engine.run(bars, &mut broker, now);
            proof {
                assert(engine.run_result(views, fresh_venue(), now, r, broker@));
            }
            r
        },
        BuiltStrategy::MacdCross(s) => {
            let engine = BacktestEngine::new(s, config).with_bar_pricing();
            let r = engine.run(bars, &mut broker, now);
            proof {
                assert(engine.run_result(views, fresh_venue(), now, r, broker@));
            }
            r
        },
        BuiltStrategy::BollingerReversion(s) => {
            let table = copy_roots(roots);
            let tabled = TabledBollinger::new(s, table);
            let ghost t = tabled;
            let engine = BacktestEngine::new(tabled, config).with_bar_pricing();
            let r = engine.run(bars, &mut broker, now);
            proof {
                assert(engine.run_result(views, fresh_venue(), now, r, broker@));
                assert(runs_as(t, config, views, now, r));
            }
            r
        },
    }
}

fn copy_roots(roots: &Vec<(Dec, Dec)>) -> (r: Vec<(Dec, Dec)>)
    ensures
        r@ == roots@,
{
    let mut out: Vec<(Dec, Dec)> = Vec::new();
    let mut i: usize = 0;
    while i < roots.len()
        invariant
            0 <= i <= roots@.len(),
            out@ == roots@.take(i as int),
        decreases roots.len() - i,
    {
        out.push(roots[i]);
        i = i + 1;
        assert(out@ =~= roots@.take(i as int));
    }
    assert(roots@.take(i as int) =~= roots@);
    out
}

/// The bars `from..to`, copied.
fn bar_range(bars: &Vec<Bar>, from: usize, to: usize) -> (r: Vec<Bar>)
    requires
        from <= to <= bars@.len(),
    ensures
        r@.len() == to - from,
        forall|i: int| 0 <= i < r@.len() ==> (#[trigger] r@[i])@ == bars@[from + i]@,
{
    let mut out: Vec<Bar> = Vec::new();
    let mut i: usize = from;
    while i < to
        invariant
            from <= i <= to <= bars@.len(),
            out@.len() == i - from,
            forall|k: int| 0 <= k < out@.len() ==> (#[trigger] out@[k])@ == bars@[from + k]@,
        decreases to - i,
    {
        out.push(bars[i].duplicate());
        i = i + 1;
    }
    out
}

/// One parameter set's place in a walk-forward: its index in the grid,
/// its label and default flag, and its final equity over the training and
/// the validation bars.
pub struct WalkForwardOutcome {
    pub index: usize,
    pub label: String,
    pub is_default: bool,
    pub train_equity: Dec,
    pub validation_equity: Dec,
}

/// The default flags of a grid.
pub open spec fn grid_defaults(grid: Seq<(Seq<char>, bool, StrategyParams)>) -> Seq<bool> {
    Seq::new(grid.len(), |i: int| grid[i].1)
}

/// `equity` is the final equity of a backtest of the set `params` (built
/// for `symbols`, ten shares an order) over `bars`.
pub open spec fn scored(
    params: StrategyParams,
    symbols: Seq<Symbol>,
    config: BacktestConfig,
    bars: Seq<BarView>,
    roots: Seq<(Dec, Dec)>,
    now: Timestamp,
    equity: Dec,
) -> bool {
    exists|b: BuiltStrategy, res: BacktestResult|
        builds(params, symbols, 10, b) && #[trigger] backtest_of(b, config, bars, roots, now, Some(res)) && res.equity == equity
}

/// A backtest of the set `params` over `bars` overflows.
pub open spec fn overflows(
    params: StrategyParams,
    symbols: Seq<Symbol>,
    config: BacktestConfig,
    bars: Seq<BarView>,
    roots: Seq<(Dec, Dec)>,
    now: Timestamp,
) -> bool {
    exists|b: BuiltStrategy| builds(params, symbols, 10, b) && #[trigger] backtest_of(b, config, bars, roots, now, None)
}

/// What the backtests of a walk-forward run on: the sets' symbols, the
/// settings, the training and validation bars, the root table, the
/// instant.
pub struct WalkInputs {
    pub symbols: Seq<Symbol>,
    pub config: BacktestConfig,
    pub train_bars: Seq<BarView>,
    pub validation_bars: Seq<BarView>,
    pub roots: Seq<(Dec, Dec)>,
    pub now: Timestamp,
}

/// `out` is what a walk-forward over `grid` gives when the sets scored
/// `train` on the training bars, the kept sets scored `vals` on the
/// validation bars (in the order kept), `ranked` and `order` being the
/// two rankings.
pub open spec fn walked_with(
    out: Seq<WalkForwardOutcome>,
    grid: Seq<(Seq<char>, bool, StrategyParams)>,
    survivors: nat,
    train: Seq<Dec>,
    ranked: Seq<usize>,
    vals: Seq<Dec>,
    order: Seq<usize>,
    inputs: WalkInputs,
) -> bool {
    let kept = kept_spec(ranked, grid_defaults(grid), survivors);
    &&& train.len() == grid.len()
    &&& forall|g: int| 0 <= g < grid.len() ==> scored(grid[g].2, inputs.symbols, inputs.config, inputs.train_bars, inputs.roots, inputs.now, #[trigger] train[g])
    &&& forall|k: int| 0 <= k < kept.len() ==> kept[k] < grid.len() && scored(grid[kept[k] as int].2, inputs.symbols, inputs.config, inputs.validation_bars, inputs.roots, inputs.now, #[trigger] vals[k])
    &&& ranks_by_value(ranked, train)
    &&& vals.len() == kept.len()
    &&& ranks_by_value(order, vals)
    &&& out.len() == kept.len()
    &&& forall|i: int| 0 <= i < out.len() ==> {
        let k = order[i] as int;
        let g = kept[k] as int;
        &&& (#[trigger] out[i]).index == kept[k]
        &&& out[i].label@ == grid[g].0
        &&& out[i].is_default == grid[g].1
        &&& out[i].train_equity == train[g]
        &&& out[i].validation_equity == vals[k]
    }
}

/// Rank every set by the final equity of its training backtest, keep the
/// top `survivors` and the default, then rank the kept sets by the final
/// equity of their validation backtests.
pub open spec fn walked(out: Seq<WalkForwardOutcome>, grid: Seq<(Seq<char>, bool, StrategyParams)>, survivors: nat, inputs: WalkInputs) -> bool {
    exists|train: Seq<Dec>, ranked: Seq<usize>, vals: Seq<Dec>, order: Seq<usize>|
        #[trigger] walked_with(out, grid, survivors, train, ranked, vals, order, inputs)
}

/// One of the backtests a walk-forward runs overflows: a set's training
/// run, or a set's validation run.
pub open spec fn walk_overflows(grid: Seq<(Seq<char>, bool, StrategyParams)>, inputs: WalkInputs) -> bool {
    exists|g: int| 0 <= g < grid.len() && #[trigger] set_overflows(grid, g, inputs)
}

/// The training or the validation backtest of set `g` overflows.
pub open spec fn set_overflows(grid: Seq<(Seq<char>, bool, StrategyParams)>, g: int, inputs: WalkInputs) -> bool {
    overflows(grid[g].2, inputs.symbols, inputs.config, inputs.train_bars, inputs.roots, inputs.now)
        || overflows(grid[g].2, inputs.symbols, inputs.config, inputs.validation_bars, inputs.roots, inputs.now)
}

/// The inputs of a walk-forward's backtests.
pub open spec fn walk_inputs(bars: Seq<Bar>, cut: nat, symbols: Seq<Symbol>, config: BacktestConfig, roots: Seq<(Dec, Dec)>, now: Timestamp) -> WalkInputs {
    WalkInputs {
        symbols,
        config,
        train_bars: bar_views(bars).subrange(0, cut as int),
        validation_bars: bar_views(bars).subrange(cut as int, bars.len() as int),
        roots,
        now,
    }
}

proof fn lemma_first_flagged_bound(flags: Seq<bool>)
    ensures
        first_flagged(flags) matches Some(d) ==> 0 <= d < flags.len(),
    decreases flags.len(),
{
    if flags.len() > 0 && !flags[0] {
        lemma_first_flagged_bound(flags.skip(1));
    }
}

/// Walk-forward over the strategy's parameter grid: the first `cut` bars
/// train, the rest validate. Refused as `walk_forward_refusal` says;
/// otherwise every set is run on the training bars, the top `survivors`
/// and the default are run on the validation bars, and those come back
/// best first. A run whose exact amounts overflow ends it with
/// `overflow_text`.
pub fn walk_forward(
    bars: &Vec<Bar>,
    strategy_key: &str,
    symbols: &Vec<Symbol>,
    config: BacktestConfig,
    cut: usize,
    survivors: usize,
    roots: &Vec<(Dec, Dec)>,
    now: Timestamp,
) -> (r: Result<Vec<WalkForwardOutcome>, String>)
    requires
        cut <= bars@.len(),
        config.history_capacity > 0,
    ensures
        match walk_forward_refusal(strategy_key@, grid_spec(strategy_key@).len(), bars@.len(), cut as nat) {
            Some(m) => r matches Err(t) && t@ == m,
            None => match r {
                Ok(out) => walked(out@, grid_spec(strategy_key@), survivors as nat, walk_inputs(bars@, cut as nat, symbols@, config, roots@, now)),
                Err(t) => t@ == overflow_text() && walk_overflows(grid_spec(strategy_key@), walk_inputs(bars@, cut as nat, symbols@, config, roots@, now)),
            },
        },
{
    let grid = param_grid(strategy_key);
    let ghost spec_grid = grid_spec(strategy_key@);
    match walk_forward_check(strategy_key, grid.len(), bars.len(), cut) {
        Ok(()) => {},
        Err(t) => return Err(t),
    }
    proof {
        reveal_strlit("정밀 금액 계산 범위 초과");
    }
    let n = bars.len();
    let ghost inputs = walk_inputs(bars@, cut as nat, symbols@, config, roots@, now);
    let mut train: Vec<Dec> = Vec::new();
    let mut defaults: Vec<bool> = Vec::new();
    let mut i: usize = 0;
    while i < grid.len()
        invariant
            0 <= i <= grid@.len(),
            grid@.len() == spec_grid.len(),
            forall|j: int| 0 <= j < grid@.len() ==> set_view(#[trigger] grid@[j]) == spec_grid[j],
            train@.len() == i,
            defaults@ == grid_defaults(spec_grid).take(i as int),
            cut <= n == bars@.len(),
            config.history_capacity > 0,
            spec_grid == grid_spec(strategy_key@),
            walk_forward_refusal(strategy_key@, spec_grid.len(), bars@.len(), cut as nat) is None,
            inputs == walk_inputs(bars@, cut as nat, symbols@, config, roots@, now),
            forall|g: int| 0 <= g < i ==> scored(spec_grid[g].2, symbols@, config, inputs.train_bars, roots@, now, #[trigger] train@[g]),
        decreases grid.len() - i,
    {
        let built = grid[i].build(symbols, 10);
        let ghost b = built;
        let window = bar_range(bars, 0, cut);
        proof {
            assert(bar_views(window@) =~= inputs.train_bars);
            assert(set_view(grid@[i as int]) == spec_grid[i as int]);
        }
        let outcome = backtest_built(built, config, window, roots, now);
        let ghost rr = outcome;
        let result = match outcome {
            Some(res) => res,
            None => {
                proof {
                    reveal_strlit("정밀 금액 계산 범위 초과");
                    assert(overflows(spec_grid[i as int].2, inputs.symbols, inputs.config, inputs.train_bars, inputs.roots, inputs.now));
                    assert(overflows(spec_grid[i as int].2, inputs.symbols, inputs.config, inputs.train_bars, inputs.roots, inputs.now)
                        || overflows(spec_grid[i as int].2, inputs.symbols, inputs.config, inputs.validation_bars, inputs.roots, inputs.now));
                    assert(set_overflows(spec_grid, i as int, inputs));
                    assert(walk_overflows(spec_grid, inputs));
                }
                return Err(String::from_str("정밀 금액 계산 범위 초과"));
            },
        };
        proof {
            assert(scored(spec_grid[i as int].2, symbols@, config, inputs.train_bars, roots@, now, result.equity));
        }
        let ghost train_before = train@;
        train.push(result.equity);
        proof {
            assert forall|g: int| 0 <= g < i + 1 implies scored(spec_grid[g].2, symbols@, config, inputs.train_bars, roots@, now, #[trigger] train@[g]) by {
                if g < i {
                    assert(train@[g] == train_before[g]);
                }
            }
        }
        defaults.push(grid[i].is_default());
        i = i + 1;
        assert(defaults@ =~= grid_defaults(spec_grid).take(i as int));
    }
    assert(defaults@ =~= grid_defaults(spec_grid));
    let ranked = rank_by_value(&train);
    let kept = kept_for_validation(&ranked, &defaults, survivors);
    proof {
        lemma_first_flagged_bound(defaults@);
        assert forall|k: int| 0 <= k < kept@.len() implies (#[trigger] kept@[k]) < grid@.len() by {
            let top = ranked@.take(if (survivors as nat) < ranked@.len() { survivors as int } else { ranked@.len() as int });
            if k < top.len() {
                assert(kept@[k] == top[k]);
            }
        }
    }
    let mut vals: Vec<Dec> = Vec::new();
    let mut k: usize = 0;
    while k < kept.len()
        invariant
            0 <= k <= kept@.len(),
            vals@.len() == k,
            forall|j: int| 0 <= j < kept@.len() ==> (#[trigger] kept@[j]) < grid@.len(),
            cut <= n == bars@.len(),
            config.history_capacity > 0,
            spec_grid == grid_spec(strategy_key@),
            walk_forward_refusal(strategy_key@, spec_grid.len(), bars@.len(), cut as nat) is None,
            inputs == walk_inputs(bars@, cut as nat, symbols@, config, roots@, now),
            grid@.len() == spec_grid.len(),
            forall|j: int| 0 <= j < grid@.len() ==> set_view(#[trigger] grid@[j]) == spec_grid[j],
            forall|j: int| 0 <= j < k ==> scored(spec_grid[kept@[j] as int].2, symbols@, config, inputs.validation_bars, roots@, now, #[trigger] vals@[j]),
        decreases kept.len() - k,
    {
        let g = kept[k];
        let built = grid[g].build(symbols, 10);
        let ghost b = built;
        let window = bar_range(bars, cut, n);
        proof {
            assert(bar_views(window@) =~= inputs.validation_bars);
            assert(set_view(grid@[g as int]) == spec_grid[g as int]);
        }
        let outcome = backtest_built(built, config, window, roots, now);
        let ghost rr = outcome;
        let result = match outcome {
            Some(res) => res,
            None => {
                proof {
                    reveal_strlit("정밀 금액 계산 범위 초과");
                    assert(overflows(spec_grid[g as int].2, inputs.symbols, inputs.config, inputs.validation_bars, inputs.roots, inputs.now));
                    assert(kept@[k as int] == g);
                    assert(0 <= g < spec_grid.len());
                    assert(overflows(spec_grid[g as int].2, inputs.symbols, inputs.config, inputs.train_bars, inputs.roots, inputs.now)
                        || overflows(spec_grid[g as int].2, inputs.symbols, inputs.config, inputs.validation_bars, inputs.roots, inputs.now));
                    assert(set_overflows(spec_grid, g as int, inputs));
                    assert(walk_overflows(spec_grid, inputs));
                }
                return Err(String::from_str("정밀 금액 계산 범위 초과"));
            },
        };
        proof {
            assert(scored(spec_grid[g as int].2, symbols@, config, inputs.validation_bars, roots@, now, result.equity));
        }
        let ghost vals_before = vals@;
        vals.push(result.equity);
        proof {
            assert forall|j: int| 0 <= j < k + 1 implies scored(spec_grid[kept@[j] as int].2, symbols@, config, inputs.validation_bars, roots@, now, #[trigger] vals@[j]) by {
                if j < k {
                    assert(vals@[j] == vals_before[j]);
                }
            }
        }
        k = k + 1;
    }
    let order = rank_by_value(&vals);
    let mut out: Vec<WalkForwardOutcome> = Vec::new();
    let mut m: usize = 0;
    while m < order.len()
        invariant
            0 <= m <= order@.len(),
            order@.len() == kept@.len() == vals@.len(),
            ranks_by_value(order@, vals@),
            ranks_by_value(ranked@, train@),
            train@.len() == grid@.len(),
            grid@.len() == spec_grid.len(),
            forall|j: int| 0 <= j < grid@.len() ==> set_view(#[trigger] grid@[j]) == spec_grid[j],
            forall|j: int| 0 <= j < kept@.len() ==> (#[trigger] kept@[j]) < grid@.len(),
            out@.len() == m,
            forall|x: int| 0 <= x < m ==> {
                let kk = order@[x] as int;
                let g = kept@[kk] as int;
                &&& (#[trigger] out@[x]).index == kept@[kk]
                &&& out@[x].label@ == spec_grid[g].0
                &&& out@[x].is_default == spec_grid[g].1
                &&& out@[x].train_equity == train@[g]
                &&& out@[x].validation_equity == vals@[kk]
            },
            forall|gg: int| 0 <= gg < spec_grid.len() ==> scored(spec_grid[gg].2, symbols@, config, inputs.train_bars, roots@, now, #[trigger] train@[gg]),
            forall|j: int| 0 <= j < kept@.len() ==> scored(spec_grid[kept@[j] as int].2, symbols@, config, inputs.validation_bars, roots@, now, #[trigger] vals@[j]),
            inputs == walk_inputs(bars@, cut as nat, symbols@, config, roots@, now),
        decreases order.len() - m,
    {
        let kk = order[m];
        let g = kept[kk];
        let set = &grid[g];
        proof {
            assert(set_view(grid@[g as int]) == spec_grid[g as int]);
        }
        out.push(WalkForwardOutcome {
            index: g,
            label: String::from_str(set.label()),
            is_default: set.is_default(),
            train_equity: train[g],
            validation_equity: vals[kk],
        });
        m = m + 1;
    }
    proof {
        assert(kept@ == kept_spec(ranked@, grid_defaults(spec_grid), survivors as nat));
        assert(walked_with(out@, spec_grid, survivors as nat, train@, ranked@, vals@, order@, inputs));
    }
    Ok(out)
}
} // verus!

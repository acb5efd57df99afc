//! The operator controls' request rules: kill-switch reasons, job
//! horizons, backtest symbol lists and configuration overrides.

use vstd::prelude::*;
use crate::backtest::BacktestConfig;
use crate::decimal::{Dec, dec_le, dec_of_int, decimal_checked_div};
use crate::types::{Symbol, is_symbol_text};

verus! {

/// The kill-switch control request.
#[derive(Debug, Clone)]
pub struct KillSwitchCommand {
    pub activate: bool,
    pub reason: Option<String>,
}

/// The backfill control request.
#[derive(Debug, Clone, Copy)]
pub struct BackfillCommand {
    pub years: Option<i64>,
}

/// The kill-switch reason: the operator's text, or `manual (web)`, cut to
/// its first 200 characters.
pub open spec fn kill_reason_text(reason: Option<Seq<char>>) -> Seq<char> {
    let text = match reason {
        Some(t) => t,
        None => "manual (web)"@,
    };
    if text.len() <= 200 { text } else { text.take(200) }
}

pub fn kill_reason(reason: Option<String>) -> (r: String)
    ensures
        r@ == kill_reason_text(match reason { Some(t) => Some(t@), None => None }),
{
    let text = match reason {
        Some(t) => t,
        None => String::from_str("manual (web)"),
    };
    let n = text.unicode_len();
    if n <= 200 {
        text
    } else {
        assert(text@.subrange(0, 200) =~= text@.take(200));
        String::from_str(text.as_str().substring_char(0, 200))
    }
}

/// A horizon in years inside `1..=max`, else the default of 5.
pub open spec fn years_or_default(years: Option<i64>, max: i64) -> i64 {
    match years {
        Some(y) => if 1 <= y && y <= max { y } else { 5 },
        None => 5,
    }
}

/// The backfill horizon: 1 to 50 years, default 5.
pub fn backfill_years(years: Option<i64>) -> (r: i64)
    ensures
        r == years_or_default(years, 50),
{
    match years {
        Some(y) => if 1 <= y && y <= 50 { y } else { 5 },
        None => 5,
    }
}

/// The backtest horizon: 1 to 30 years, default 5.
pub fn backtest_years(years: Option<i64>) -> (r: i64)
    ensures
        r == years_or_default(years, 30),
{
    match years {
        Some(y) => if 1 <= y && y <= 30 { y } else { 5 },
        None => 5,
    }
}

pub open spec fn symbol_texts(s: Seq<Symbol>) -> Seq<Seq<char>> {
    Seq::new(s.len(), |i: int| s[i]@)
}

pub open spec fn string_texts(s: Seq<String>) -> Seq<Seq<char>> {
    Seq::new(s.len(), |i: int| s[i]@)
}

/// The symbols a backtest runs over: the requested list when one is given
/// and every code in it is a ticker, else the watchlist; `Err` when a
/// requested code is not a ticker.
pub fn backtest_symbols(requested: Option<Vec<String>>, watchlist: &Vec<Symbol>) -> (r: Result<Vec<Symbol>, ()>)
    ensures
        requested is Some && requested->0@.len() > 0 ==> if forall|i: int| 0 <= i < requested->0@.len()
            ==> is_symbol_text(#[trigger] requested->0@[i]@) {
            r matches Ok(v) && symbol_texts(v@) == string_texts(requested->0@)
        } else {
            r is Err
        },
        !(requested is Some && requested->0@.len() > 0) ==> (r matches Ok(v) && symbol_texts(v@) == symbol_texts(watchlist@)),
{
    match requested {
        Some(list) if list.len() > 0 => {
            let mut out: Vec<Symbol> = Vec::new();
            let mut i: usize = 0;
            while i < list.len()
                invariant
                    requested == Some(list),
                    list@.len() > 0,
                    0 <= i <= list@.len(),
                    out@.len() == i,
                    forall|k: int| 0 <= k < i ==> (#[trigger] out@[k])@ == list@[k]@,
                    forall|k: int| 0 <= k < i ==> is_symbol_text(#[trigger] list@[k]@),
                decreases list@.len() - i,
            {
                match Symbol::parse(list[i].as_str()) {
                    Ok(s) => out.push(s),
                    Err(_) => {
                        assert(!is_symbol_text(list@[i as int]@));
                        return Err(());
                    },
                }
                i = i + 1;
            }
            assert(symbol_texts(out@) =~= string_texts(list@));
            Ok(out)
        },
        _ => {
            let mut out: Vec<Symbol> = Vec::new();
            let mut i: usize = 0;
            while i < watchlist.len()
                invariant
                    0 <= i <= watchlist@.len(),
                    out@.len() == i,
                    forall|k: int| 0 <= k < i ==> (#[trigger] out@[k])@ == watchlist@[k]@,
                decreases watchlist@.len() - i,
            {
                out.push(watchlist[i].duplicate());
                i = i + 1;
            }
            assert(symbol_texts(out@) =~= symbol_texts(watchlist@));
            Ok(out)
        },
    }
}

/// The backtest control request.
#[derive(Debug, Clone)]
pub struct BacktestCommand {
    pub strategy: String,
    pub symbols: Option<Vec<String>>,
    pub years: Option<i64>,
    /// Optional configuration overrides.
    pub config: Option<BacktestConfigOverrides>,
}

/// Backtest configuration overrides from the control request.
#[derive(Debug, Clone, Copy)]
pub struct BacktestConfigOverrides {
    pub initial_cash: Option<i64>,
    /// Percent, e.g. 0.015 means 0.015% — converted to a rate.
    pub commission_pct: Option<Dec>,
    pub tax_pct: Option<Dec>,
    pub history_capacity: Option<usize>,
}

/// A percent inside `0..=1`.
pub open spec fn pct_in_range(p: Dec) -> bool {
    dec_le(dec_of_int(0), p) && dec_le(p, dec_of_int(1))
}

/// The overrides applied in order (cash, commission, tax, capacity), each
/// checked against its range; the first violation refuses the request.
/// A percent becomes a rate by dividing by 100.
pub open spec fn overrides_outcome(o: BacktestConfigOverrides, c: BacktestConfig) -> Result<BacktestConfig, Seq<char>> {
    let cash_ok = match o.initial_cash { Some(v) => 1_000_000 <= v <= 100_000_000_000, None => true };
    let commission_ok = match o.commission_pct { Some(p) => pct_in_range(p), None => true };
    let tax_ok = match o.tax_pct { Some(p) => pct_in_range(p), None => true };
    let capacity_ok = match o.history_capacity { Some(v) => 2 <= v <= 1000, None => true };
    let commission = match o.commission_pct { Some(p) => decimal_checked_div(p, dec_of_int(100)), None => Some(c.commission_rate) };
    let tax = match o.tax_pct { Some(p) => decimal_checked_div(p, dec_of_int(100)), None => Some(c.tax_rate) };
    if !cash_ok {
        Err("initial_cash out of range (1,000,000 .. 100,000,000,000)"@)
    } else if !commission_ok || commission is None {
        Err("commission_pct out of range (0 .. 1)"@)
    } else if !tax_ok || tax is None {
        Err("tax_pct out of range (0 .. 1)"@)
    } else if !capacity_ok {
        Err("history_capacity out of range (2 .. 1000)"@)
    } else {
        Ok(BacktestConfig {
            initial_cash: match o.initial_cash { Some(v) => dec_of_int(v as int), None => c.initial_cash },
            commission_rate: commission.unwrap(),
            tax_rate: tax.unwrap(),
            history_capacity: match o.history_capacity { Some(v) => v, None => c.history_capacity },
        })
    }
}

impl BacktestConfigOverrides {
    /// Apply with range validation; a violation refuses the request.
    pub fn apply(&self, config: BacktestConfig) -> (r: Result<BacktestConfig, &'static str>)
        ensures
            match overrides_outcome(*self, config) {
                Ok(c) => r == Ok::<BacktestConfig, &'static str>(c),
                Err(m) => r matches Err(t) && t@ == m,
            },
    {
        let mut config = config;
        let hundred = Dec::from_i64(100);
        if let Some(cash) = self.initial_cash {
            if !(1_000_000 <= cash && cash <= 100_000_000_000) {
                return Err("initial_cash out of range (1,000,000 .. 100,000,000,000)");
            }
            config.initial_cash = Dec::from_i64(cash);
        }
        if let Some(pct) = self.commission_pct {
            if !(Dec::zero().le(&pct) && pct.le(&Dec::one())) {
                return Err("commission_pct out of range (0 .. 1)");
            }
            match pct.checked_div(&hundred) {
                Some(rate) => config.commission_rate = rate,
                None => return Err("commission_pct out of range (0 .. 1)"),
            }
        }
        if let Some(pct) = self.tax_pct {
            if !(Dec::zero().le(&pct) && pct.le(&Dec::one())) {
                return Err("tax_pct out of range (0 .. 1)");
            }
            match pct.checked_div(&hundred) {
                Some(rate) => config.tax_rate = rate,
                None => return Err("tax_pct out of range (0 .. 1)"),
            }
        }
        if let Some(capacity) = self.history_capacity {
            if !(2 <= capacity && capacity <= 1000) {
                return Err("history_capacity out of range (2 .. 1000)");
            }
            config.history_capacity = capacity;
        }
        Ok(config)
    }
}

/// The list without any listing of `code`, order kept.
pub open spec fn without_code(list: Seq<Seq<char>>, code: Seq<char>) -> Seq<Seq<char>>
    decreases list.len(),
{
    if list.len() == 0 {
        Seq::empty()
    } else {
        let rest = without_code(list.drop_last(), code);
        if list.last() == code {
            rest
        } else {
            rest.push(list.last())
        }
    }
}

/// The watchlist after an operator edit: `add` appends a code not yet
/// listed, `remove` drops it; any other action is refused.
pub open spec fn edited_watchlist(list: Seq<Seq<char>>, action: Seq<char>, code: Seq<char>) -> Option<Seq<Seq<char>>> {
    if action == "add"@ {
        Some(if list.contains(code) { list } else { list.push(code) })
    } else if action == "remove"@ {
        Some(without_code(list, code))
    } else {
        None
    }
}

pub fn edit_watchlist(list: &Vec<Symbol>, action: &str, symbol: &Symbol) -> (r: Option<Vec<Symbol>>)
    ensures
        match edited_watchlist(symbol_texts(list@), action@, symbol@) {
            Some(t) => r matches Some(v) && symbol_texts(v@) == t,
            None => r is None,
        },
{
    proof {
        reveal_strlit("add");
        reveal_strlit("remove");
    }
    let ghost texts = symbol_texts(list@);
    let adding = crate::text::text_equal(action, "add");
    let removing = crate::text::text_equal(action, "remove");
    if !adding && !removing {
        return None;
    }
    let mut out: Vec<Symbol> = Vec::new();
    let mut present = false;
    let mut i: usize = 0;
    while i < list.len()
        invariant
            texts == symbol_texts(list@),
            0 <= i <= list@.len(),
            present == texts.take(i as int).contains(symbol@),
            adding ==> symbol_texts(out@) == texts.take(i as int),
            !adding ==> symbol_texts(out@) == without_code(texts.take(i as int), symbol@),
        decreases list.len() - i,
    {
        let ghost before = texts.take(i as int);
        let ghost after = texts.take(i + 1);
        proof {
            assert(after =~= before.push(texts[i as int]));
            assert(after.drop_last() =~= before);
            if before.contains(symbol@) {
                let w = choose|w: int| 0 <= w < before.len() && before[w] == symbol@;
                assert(after[w] == symbol@);
            }
            if after.contains(symbol@) {
                let w = choose|w: int| 0 <= w < after.len() && after[w] == symbol@;
                if w < i {
                    assert(before[w] == symbol@);
                }
            }
        }
        let same = list[i].same(symbol);
        proof {
            assert(texts[i as int] == list@[i as int]@);
            if texts[i as int] == symbol@ {
                assert(after[i as int] == symbol@);
            }
            assert(after.contains(symbol@) == (before.contains(symbol@) || texts[i as int] == symbol@));
        }
        if same {
            present = true;
        }
        if adding || !same {
            let ghost old_out = symbol_texts(out@);
            out.push(list[i].duplicate());
            proof {
                assert(symbol_texts(out@) =~= old_out.push(list@[i as int]@));
            }
        }
        i = i + 1;
    }
    proof {
        assert(texts.take(list@.len() as int) =~= texts);
    }
    if adding && !present {
        let ghost old_out = symbol_texts(out@);
        out.push(symbol.duplicate());
        proof {
            assert(symbol_texts(out@) =~= old_out.push(symbol@));
        }
    }
    Some(out)
}

} // verus!

//! Natural-language strategy generation: the contract a generated
//! strategy file must satisfy, the request that carries it, and the checks
//! its reply must pass before it may land in the tree. The model call, the
//! file write and the compile gate are the application's.

use vstd::prelude::*;
use crate::config::{trim_text, trimmed};
use crate::text::{contains_text, ends_with_text, starts_with_text, text_contains, text_ends_with,
    text_starts_with};

verus! {

/// The system prompt: the full contract a generated file must satisfy.
pub const SYSTEM_PROMPT: &'static str = "You write ONE complete Rust source file for a trading strategy registry slot.
Reply with ONLY the file content — no markdown fences, no commentary.

The file must define EXACTLY this public surface (the crate already compiles it in):

- `pub const KEY: &str` — unique kebab-case key (e.g. \"rsi-dip-buy\")
- `pub const NAME: &str` — short Korean display name
- `pub const DESCRIPTION: &str` — one-sentence Korean description
- one strategy struct implementing `Strategy`:
  `fn name(&self) -> &str`, `fn version(&self) -> &str` (\"1\"),
  `fn decide(&self, snapshot: &MarketSnapshot) -> StrategyDecision`
- `pub fn specs() -> Vec<crate::strategy_registry::StrategySpec>` returning ONE spec:
  StrategySpec {{ key: KEY, name: NAME, description: DESCRIPTION,
                  params: \"<기본 파라미터 요약>\", generated: true }}
- `pub fn build(key: &str, symbols: &[crate::types::Symbol], quantity: i64)
     -> Option<Box<dyn crate::strategy::Strategy>>` matching only KEY

Rules (violations fail the review):
- `decide` is PURE: no randomness, no clock, no I/O. Same snapshot -> same decision.
- Emit OrderIntents only; never touch brokers or storage.
- Past prices come ONLY from `snapshot.history` (completed bar closes, oldest first);
  `snapshot.quotes` are live ticks. Use `crate::history::sma` if a moving average helps.
- If history is insufficient, return empty intents (no forced trade).
- Sell only when `snapshot.positions` shows a holding for the symbol.

Imports you may use: std::collections::BTreeMap, rust_decimal::Decimal,
crate::history::sma, crate::strategy::{{MarketSnapshot, OrderIntent, Strategy, StrategyDecision}},
crate::types::{{OrderSide, OrderType, Symbol}}.

Example shape (SMA touch):

use std::collections::BTreeMap;
use crate::history::sma;
use crate::strategy::{{MarketSnapshot, OrderIntent, Strategy, StrategyDecision}};
use crate::types::{{OrderSide, OrderType, Symbol}};

pub const KEY: &str = \"sma-touch\";
pub const NAME: &str = \"SMA 접촉\";
pub const DESCRIPTION: &str = \"종가가 N일 이동평균을 상회하면 매수\";

pub struct SmaTouchStrategy {{ symbols: Vec<Symbol>, period: usize, quantity: i64 }}
impl SmaTouchStrategy {{ pub fn new(symbols: Vec<Symbol>, period: usize, quantity: i64) -> Self {{ Self {{ symbols, period, quantity }} }} }}
impl Strategy for SmaTouchStrategy {{
    fn name(&self) -> &str {{ KEY }} fn version(&self) -> &str {{ \"1\" }}
    fn decide(&self, snapshot: &MarketSnapshot) -> StrategyDecision {{
        let mut intents = Vec::new();
        for symbol in &self.symbols {{
            let Some(closes) = snapshot.history.get(symbol) else {{ continue }};
            let Some(avg) = sma(closes, self.period) else {{ continue }};
            let last = closes[closes.len() - 1];
            let holding = snapshot.positions.get(symbol).map(|p| p.quantity).unwrap_or(0);
            if last > avg && holding == 0 {{
                intents.push(OrderIntent {{ symbol: symbol.clone(), side: OrderSide::Buy,
                    order_type: OrderType::Market, quantity: self.quantity, limit_price: None }});
            }}
        }}
        StrategyDecision {{ strategy_name: KEY.into(), strategy_version: \"1\".into(), intents,
            features: BTreeMap::new(), rationale: String::new() }}
    }}
}}
pub fn specs() -> Vec<crate::strategy_registry::StrategySpec> {{
    vec![crate::strategy_registry::StrategySpec {{ key: KEY, name: NAME, description: DESCRIPTION,
        params: \"기간 20\", generated: true }}]
}}
pub fn build(key: &str, symbols: &[Symbol], quantity: i64) -> Option<Box<dyn Strategy>> {{
    (key == KEY).then(|| Box::new(SmaTouchStrategy::new(symbols.to_vec(), 20, quantity)) as Box<dyn Strategy>)
}}
";

/// The system prompt.
pub fn system_prompt() -> (r: String)
    ensures
        r@ == SYSTEM_PROMPT@,
{
    String::from_str(SYSTEM_PROMPT)
}

/// What lies inside an optional ```` ```rust ```` / ```` ``` ```` opening
/// fence and an optional closing fence.
pub open spec fn unfenced(t: Seq<char>) -> Seq<char> {
    let body = if starts_with_text(t, "```rust"@) {
        t.skip(7)
    } else if starts_with_text(t, "```"@) {
        t.skip(3)
    } else {
        t
    };
    if ends_with_text(body, "```"@) {
        body.take(body.len() - 3)
    } else {
        body
    }
}

/// Strip markdown fences some models wrap around code.
pub fn strip_fences(reply: &str) -> (r: String)
    ensures
        r@ == trimmed(unfenced(trimmed(reply@))),
{
    proof {
        reveal_strlit("```rust");
        reveal_strlit("```");
    }
    let text = trim_text(reply);
    let t = text.as_str();
    let n = t.unicode_len();
    let body: &str = if text_starts_with(t, "```rust") {
        t.substring_char(7, n)
    } else if text_starts_with(t, "```") {
        t.substring_char(3, n)
    } else {
        t
    };
    let m = body.unicode_len();
    let inner: &str = if text_ends_with(body, "```") {
        body.substring_char(0, m - 3)
    } else {
        body
    };
    proof {
        assert(t@.subrange(7, n as int) =~= t@.skip(7));
        assert(t@.subrange(3, n as int) =~= t@.skip(3));
        if ends_with_text(body@, "```"@) {
            assert(body@.subrange(0, m - 3) =~= body@.take(m - 3));
        }
    }
    trim_text(inner)
}

/// The user message that asks for one strategy file.
pub fn user_prompt(description: &str) -> (r: String)
    ensures
        r@ == "전략 설명: "@ + description@ + "\n\n위 규약에 맞는 파일 하나만 답하라."@,
{
    let mut r = String::from_str("전략 설명: ");
    r.append(description);
    r.append("\n\n위 규약에 맞는 파일 하나만 답하라.");
    r
}

/// A reply is accepted only once unfenced and carrying both `specs()` and
/// a `Strategy` impl.
pub open spec fn accepted_code(content: Seq<char>) -> Result<Seq<char>, Seq<char>> {
    let code = trimmed(unfenced(trimmed(content)));
    if contains_text(code, "pub fn specs()"@) && contains_text(code, "impl Strategy for"@) {
        Ok(code)
    } else {
        Err("생성 코드가 규약을 충족하지 않음(specs/Strategy 누락)"@)
    }
}

/// The generated file from the model's reply text.
pub fn accept_generated(content: &str) -> (r: Result<String, String>)
    ensures
        match accepted_code(content@) {
            Ok(c) => r matches Ok(x) && x@ == c,
            Err(m) => r matches Err(x) && x@ == m,
        },
{
    let code = strip_fences(content);
    if !text_contains(code.as_str(), "pub fn specs()") || !text_contains(code.as_str(), "impl Strategy for") {
        return Err(String::from_str("생성 코드가 규약을 충족하지 않음(specs/Strategy 누락)"));
    }
    Ok(code)
}

} // verus!

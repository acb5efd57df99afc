//! Settings: defaults, the values read from the environment, and the
//! paper/live separation rules.
//!
//! - Default mode is paper.
//! - `live` requires the explicit double confirmation AND the real KIS
//!   domain; violations refuse to load — unconfirmed live trading never
//!   falls back.

use vstd::prelude::*;
use crate::types::{InvalidSymbol, Symbol, is_symbol_text};
use crate::text::text_equal;

verus! {

/// Risk limits (KRW, enforced wherever a RiskManager is assembled).
#[derive(Debug, Clone, Copy, PartialEq, Eq, Structural)]
pub struct RiskSettings {
    pub max_order_notional: i64,
    pub max_position_quantity: i64,
    pub gross_exposure: i64,
    pub daily_loss_limit: i64,
    pub stale_quote_seconds: u64,
}

impl Default for RiskSettings {
    fn default() -> (r: RiskSettings)
        ensures
            r == (RiskSettings {
                max_order_notional: 5_000_000,
                max_position_quantity: 50,
                gross_exposure: 20_000_000,
                daily_loss_limit: 500_000,
                stale_quote_seconds: 30,
            }),
    {
        RiskSettings {
            max_order_notional: 5_000_000,
            max_position_quantity: 50,
            gross_exposure: 20_000_000,
            daily_loss_limit: 500_000,
            stale_quote_seconds: 30,
        }
    }
}

#[derive(Debug, Clone, Copy, PartialEq, Eq, Structural)]
pub enum TradingMode {
    Paper,
    Live,
}

impl TradingMode {
    /// `"paper"` / `"live"`, as the mode is displayed.
    pub fn as_str(&self) -> (r: &'static str)
        ensures
            r@ == (if *self == TradingMode::Paper { "paper"@ } else { "live"@ }),
    {
        match self {
            TradingMode::Paper => "paper",
            TradingMode::Live => "live",
        }
    }
}

#[derive(Debug, Clone, Copy, PartialEq, Eq, Structural)]
pub enum KisEnvironment {
    Mock,
    Real,
}

#[derive(Debug, Clone, Copy, PartialEq, Eq, Structural)]
pub enum PaperBackend {
    Memory,
    Kis,
}

/// Credentials are kept opaque so they never leak through logs: this type
/// has no debug rendering.
pub struct Secret(String);

impl Secret {
    pub fn new(value: String) -> (r: Secret)
        ensures
            r@ == value@,
    {
        Secret(value)
    }

    pub fn expose(&self) -> (r: &str)
        ensures
            r@ == self@,
    {
        self.0.as_str()
    }
}

impl View for Secret {
    type V = Seq<char>;

    closed spec fn view(&self) -> Seq<char> {
        self.0@
    }
}

pub struct Settings {
    pub trading_mode: TradingMode,
    pub live_trading_confirmed: bool,
    pub kis_environment: KisEnvironment,
    pub paper_backend: PaperBackend,
    pub kis_app_key: Secret,
    pub kis_app_secret: Secret,
    pub kis_account_number: String,
    pub database_path: String,
    pub risk: RiskSettings,
    /// Bounded past-closes window handed to indicator strategies.
    pub history_window_bars: usize,
    /// Symbol universe the runtime trades/watches. WATCHLIST overrides
    /// (comma-separated 6-digit codes); invalid codes refuse to boot.
    pub watchlist: Vec<Symbol>,
}

pub open spec fn default_watchlist_texts() -> Seq<Seq<char>> {
    seq!["005930"@, "035420"@, "069500"@]
}

pub open spec fn watchlist_texts(s: Seq<Symbol>) -> Seq<Seq<char>> {
    Seq::new(s.len(), |i: int| s[i]@)
}

pub fn default_watchlist() -> (r: Vec<Symbol>)
    ensures
        watchlist_texts(r@) == default_watchlist_texts(),
{
    proof {
        reveal_strlit("005930");
        reveal_strlit("035420");
        reveal_strlit("069500");
    }
    let a = Symbol::parse("005930");
    let b = Symbol::parse("035420");
    let c = Symbol::parse("069500");
    assert(is_symbol_text("005930"@));
    assert(is_symbol_text("035420"@));
    assert(is_symbol_text("069500"@));
    let r = vec![a.unwrap(), b.unwrap(), c.unwrap()];
    assert(watchlist_texts(r@) =~= default_watchlist_texts());
    r
}

impl Default for Settings {
    /// The safe default: paper mode on the in-memory backend.
    fn default() -> (r: Settings)
        ensures
            r.trading_mode == TradingMode::Paper,
            !r.live_trading_confirmed,
            r.kis_environment == KisEnvironment::Mock,
            r.paper_backend == PaperBackend::Memory,
            r.kis_app_key@ == Seq::<char>::empty(),
            r.kis_app_secret@ == Seq::<char>::empty(),
            r.kis_account_number@ == Seq::<char>::empty(),
            r.database_path@ == "data/lossfunction.db"@,
            r.risk == RiskSettings::default_spec(),
            r.history_window_bars == 120,
            watchlist_texts(r.watchlist@) == default_watchlist_texts(),
    {
        Settings::default_settings()
    }
}

impl Settings {
    /// Paper mode, in-memory backend, mock KIS domain, no credentials,
    /// `data/lossfunction.db`, default risk limits, 120-bar history window,
    /// the default watchlist.
    pub fn default_settings() -> (r: Settings)
        ensures
            r.trading_mode == TradingMode::Paper,
            !r.live_trading_confirmed,
            r.kis_environment == KisEnvironment::Mock,
            r.paper_backend == PaperBackend::Memory,
            r.kis_app_key@ == Seq::<char>::empty(),
            r.kis_app_secret@ == Seq::<char>::empty(),
            r.kis_account_number@ == Seq::<char>::empty(),
            r.database_path@ == "data/lossfunction.db"@,
            r.risk == RiskSettings::default_spec(),
            r.history_window_bars == 120,
            watchlist_texts(r.watchlist@) == default_watchlist_texts(),
    {
        proof {
            reveal_strlit("data/lossfunction.db");
        }
        Settings {
            trading_mode: TradingMode::Paper,
            live_trading_confirmed: false,
            kis_environment: KisEnvironment::Mock,
            paper_backend: PaperBackend::Memory,
            kis_app_key: Secret(String::new()),
            kis_app_secret: Secret(String::new()),
            kis_account_number: String::new(),
            database_path: String::from_str("data/lossfunction.db"),
            risk: RiskSettings::default(),
            history_window_bars: 120,
            watchlist: default_watchlist(),
        }
    }

    /// The paper/live separation rules: live needs the explicit
    /// confirmation, then the real KIS domain.
    pub fn validate(&self) -> (r: Result<(), ConfigError>)
        ensures
            self.trading_mode == TradingMode::Live && !self.live_trading_confirmed ==> r matches Err(ConfigError::LiveNotConfirmed),
            self.trading_mode == TradingMode::Live && self.live_trading_confirmed && self.kis_environment != KisEnvironment::Real
                ==> r matches Err(ConfigError::LiveRequiresRealEnvironment),
            self.trading_mode == TradingMode::Paper || (self.live_trading_confirmed && self.kis_environment == KisEnvironment::Real)
                ==> r is Ok,
    {
        if self.trading_mode == TradingMode::Live {
            if !self.live_trading_confirmed {
                return Err(ConfigError::LiveNotConfirmed);
            }
            if self.kis_environment != KisEnvironment::Real {
                return Err(ConfigError::LiveRequiresRealEnvironment);
            }
        }
        Ok(())
    }
}

impl RiskSettings {
    pub open spec fn default_spec() -> RiskSettings {
        RiskSettings {
            max_order_notional: 5_000_000,
            max_position_quantity: 50,
            gross_exposure: 20_000_000,
            daily_loss_limit: 500_000,
            stale_quote_seconds: 30,
        }
    }
}

#[derive(Debug, Clone)]
pub enum ConfigError {
    UnknownTradingMode(String),
    LiveNotConfirmed,
    LiveRequiresRealEnvironment,
    Invalid { field: &'static str, message: String },
}

/// An error as plain values: which kind, and for `Invalid` the field and
/// message (for `UnknownTradingMode` the message is the mode).
pub open spec fn error_view(e: ConfigError) -> (int, Seq<char>, Seq<char>) {
    match e {
        ConfigError::UnknownTradingMode(m) => (0, Seq::empty(), m@),
        ConfigError::LiveNotConfirmed => (1, Seq::empty(), Seq::empty()),
        ConfigError::LiveRequiresRealEnvironment => (2, Seq::empty(), Seq::empty()),
        ConfigError::Invalid { field, message } => (3, field@, message@),
    }
}

pub open spec fn invalid(field: Seq<char>, message: Seq<char>) -> (int, Seq<char>, Seq<char>) {
    (3, field, message)
}

/// How a settings error reads to the operator.
pub open spec fn config_error_text(e: ConfigError) -> Seq<char> {
    match e {
        ConfigError::UnknownTradingMode(m) => "unknown TRADING_MODE "@ + debug_text(m@) + " (expected paper|live)"@,
        ConfigError::LiveNotConfirmed =>
            "trading_mode=live requires live_trading_confirmed=true; unconfirmed live trading is refused at settings load"@,
        ConfigError::LiveRequiresRealEnvironment => "trading_mode=live requires kis_environment=real"@,
        ConfigError::Invalid { field, message } => "invalid "@ + field@ + ": "@ + message@,
    }
}

impl ConfigError {
    pub fn message(&self) -> (r: String)
        ensures
            r@ == config_error_text(*self),
    {
        proof {
            reveal_strlit("unknown TRADING_MODE ");
            reveal_strlit(" (expected paper|live)");
            reveal_strlit("trading_mode=live requires live_trading_confirmed=true; unconfirmed live trading is refused at settings load");
            reveal_strlit("trading_mode=live requires kis_environment=real");
            reveal_strlit("invalid ");
            reveal_strlit(": ");
        }
        match self {
            ConfigError::UnknownTradingMode(m) => {
                let mut text = String::from_str("unknown TRADING_MODE ");
                let q = debug_quoted(m.as_str());
                text.append(q.as_str());
                text.append(" (expected paper|live)");
                text
            },
            ConfigError::LiveNotConfirmed => String::from_str(
                "trading_mode=live requires live_trading_confirmed=true; unconfirmed live trading is refused at settings load",
            ),
            ConfigError::LiveRequiresRealEnvironment => String::from_str("trading_mode=live requires kis_environment=real"),
            ConfigError::Invalid { field, message } => {
                let mut text = String::from_str("invalid ");
                text.append(field);
                text.append(": ");
                text.append(message.as_str());
                text
            },
        }
    }
}

/// `{:?}` of a string: quoted, with escapes.
pub uninterp spec fn debug_text(s: Seq<char>) -> Seq<char>;

/// `format!("{:?}", s)` — std's debug rendering of a string.
#[verifier::external_body]
pub(crate) fn debug_quoted(s: &str) -> (r: String)
    ensures
        r@ == debug_text(s@),
{
    format!("{:?}", s)
}

/// Unicode `White_Space`, as `char::is_whitespace` tests it.
pub open spec fn is_space(c: char) -> bool {
    ('\u{9}' <= c && c <= '\u{d}') || c == ' ' || c == '\u{85}' || c == '\u{a0}' || c == '\u{1680}'
        || ('\u{2000}' <= c && c <= '\u{200a}') || c == '\u{2028}' || c == '\u{2029}' || c == '\u{202f}'
        || c == '\u{205f}' || c == '\u{3000}'
}

fn space(c: char) -> (r: bool)
    ensures
        r == is_space(c),
{
    ('\u{9}' <= c && c <= '\u{d}') || c == ' ' || c == '\u{85}' || c == '\u{a0}' || c == '\u{1680}'
        || ('\u{2000}' <= c && c <= '\u{200a}') || c == '\u{2028}' || c == '\u{2029}' || c == '\u{202f}'
        || c == '\u{205f}' || c == '\u{3000}'
}

/// The text without leading and trailing white space (`str::trim`).
pub open spec fn trimmed(s: Seq<char>) -> Seq<char>
    decreases s.len(),
{
    if s.len() > 0 && is_space(s[0]) {
        trimmed(s.skip(1))
    } else if s.len() > 0 && is_space(s.last()) {
        trimmed(s.drop_last())
    } else {
        s
    }
}

proof fn lemma_trim_bounds(s: Seq<char>, a: int, b: int)
    requires
        0 <= a <= b <= s.len(),
        forall|i: int| 0 <= i < a ==> is_space(#[trigger] s[i]),
        forall|i: int| b <= i < s.len() ==> is_space(#[trigger] s[i]),
        a < b ==> !is_space(s[a]) && !is_space(s[b - 1]),
        a == b ==> b == s.len(),
    ensures
        trimmed(s) == s.subrange(a, b),
    decreases s.len(),
{
    if s.len() > 0 && is_space(s[0]) {
        let t = s.skip(1);
        if a == 0 {
            assert(false);
        }
        assert forall|i: int| 0 <= i < a - 1 implies is_space(#[trigger] t[i]) by {
            assert(t[i] == s[i + 1]);
        }
        assert forall|i: int| b - 1 <= i < t.len() implies is_space(#[trigger] t[i]) by {
            assert(t[i] == s[i + 1]);
        }
        lemma_trim_bounds(t, a - 1, b - 1);
        assert(t.subrange(a - 1, b - 1) =~= s.subrange(a, b));
    } else if s.len() > 0 && is_space(s.last()) {
        let t = s.drop_last();
        if b == s.len() && a < b {
            assert(false);
        }
        if a == b {
            assert(false);
        }
        assert forall|i: int| b <= i < t.len() implies is_space(#[trigger] t[i]) by {
            assert(t[i] == s[i]);
        }
        lemma_trim_bounds(t, a, b);
        assert(t.subrange(a, b) =~= s.subrange(a, b));
    } else {
        if s.len() > 0 {
            if a > 0 {
                assert(is_space(s[0]));
            }
            if b < s.len() {
                assert(is_space(s[s.len() - 1]));
            }
        }
        assert(s.subrange(a, b) =~= s);
    }
}

/// `str::trim`.
pub fn trim_text(s: &str) -> (r: String)
    ensures
        r@ == trimmed(s@),
{
    let n = s.unicode_len();
    let mut a: usize = 0;
    while a < n && space(s.get_char(a))
        invariant
            n == s@.len(),
            0 <= a <= n,
            forall|i: int| 0 <= i < a ==> is_space(#[trigger] s@[i]),
        decreases n - a,
    {
        a = a + 1;
    }
    let mut b: usize = n;
    while b > a && space(s.get_char(b - 1))
        invariant
            n == s@.len(),
            0 <= a <= b <= n,
            forall|i: int| b <= i < n ==> is_space(#[trigger] s@[i]),
        decreases b,
    {
        b = b - 1;
    }
    proof {
        if a < b {
            assert(!is_space(s@[b - 1]));
            if a < n {
                assert(!is_space(s@[a as int]));
            }
        } else if a < n {
            assert(!is_space(s@[a as int]));
        }
        lemma_trim_bounds(s@, a as int, b as int);
    }
    String::from_str(s.substring_char(a, b))
}

/// The pieces between commas (`str::split(',')`); `""` gives one empty piece.
pub open spec fn comma_pieces(s: Seq<char>) -> Seq<Seq<char>>
    decreases s.len(),
{
    if s.len() == 0 {
        seq![Seq::<char>::empty()]
    } else {
        let before = comma_pieces(s.drop_last());
        if s.last() == ',' {
            before.push(Seq::empty())
        } else {
            before.update(before.len() - 1, before.last().push(s.last()))
        }
    }
}

proof fn lemma_pieces_nonempty(s: Seq<char>)
    ensures
        comma_pieces(s).len() >= 1,
    decreases s.len(),
{
    if s.len() > 0 {
        lemma_pieces_nonempty(s.drop_last());
    }
}

/// The trimmed, non-empty pieces.
pub open spec fn codes_of(pieces: Seq<Seq<char>>) -> Seq<Seq<char>>
    decreases pieces.len(),
{
    if pieces.len() == 0 {
        Seq::empty()
    } else {
        let before = codes_of(pieces.drop_last());
        let t = trimmed(pieces.last());
        if t.len() == 0 {
            before
        } else {
            before.push(t)
        }
    }
}

/// Position of the first code that is not a ticker.
pub open spec fn first_invalid(codes: Seq<Seq<char>>) -> int {
    choose|i: int| 0 <= i < codes.len() && !is_symbol_text(#[trigger] codes[i])
        && forall|j: int| 0 <= j < i ==> is_symbol_text(#[trigger] codes[j])
}

/// The watchlist a WATCHLIST value names, or the error it is refused with.
pub open spec fn watchlist_outcome(raw: Seq<char>) -> Result<Seq<Seq<char>>, (int, Seq<char>, Seq<char>)> {
    let codes = codes_of(comma_pieces(raw));
    if codes.len() == 0 {
        Err(invalid("WATCHLIST"@, "empty watchlist"@))
    } else if exists|i: int| 0 <= i < codes.len() && !is_symbol_text(#[trigger] codes[i]) {
        let i = first_invalid(codes);
        Err(invalid("WATCHLIST"@, debug_text(codes[i]) + ": symbol must be exactly 6 digits, got "@ + debug_text(codes[i])))
    } else {
        Ok(codes)
    }
}

fn split_codes(raw: &str) -> (r: Vec<String>)
    ensures
        Seq::new(r@.len(), |i: int| r@[i]@) == codes_of(comma_pieces(raw@)),
{
    let n = raw.unicode_len();
    let mut out: Vec<String> = Vec::new();
    let mut start: usize = 0;
    let mut k: usize = 0;
    let ghost mut done: Seq<Seq<char>> = Seq::empty();
    proof {
        assert(raw@.take(0) =~= Seq::<char>::empty());
    }
    while k < n
        invariant
            n == raw@.len(),
            0 <= start <= k <= n,
            comma_pieces(raw@.take(k as int)) == done.push(raw@.subrange(start as int, k as int)),
            Seq::new(out@.len(), |i: int| out@[i]@) == codes_of(done),
        decreases n - k,
    {
        let c = raw.get_char(k);
        proof {
            assert(raw@.take(k + 1).drop_last() =~= raw@.take(k as int));
            assert(raw@.take(k + 1).last() == c);
        }
        if c == ',' {
            let piece = trim_text(raw.substring_char(start, k));
            let ghost before_out = Seq::new(out@.len(), |i: int| out@[i]@);
            if piece.unicode_len() > 0 {
                out.push(piece);
            }
            proof {
                let p = raw@.subrange(start as int, k as int);
                assert(codes_of(done.push(p)) == (if trimmed(p).len() == 0 { codes_of(done) } else { codes_of(done).push(trimmed(p)) })) by {
                    assert(done.push(p).drop_last() =~= done);
                }
                assert(Seq::new(out@.len(), |i: int| out@[i]@) =~= codes_of(done.push(p)));
                done = done.push(p);
                assert(raw@.subrange((k + 1) as int, (k + 1) as int) =~= Seq::<char>::empty());
            }
            start = k + 1;
        } else {
            proof {
                let p = raw@.subrange(start as int, k as int);
                let dp = done.push(p);
                assert(raw@[k as int] == c);
                assert(raw@.subrange(start as int, k + 1) =~= p.push(c));
                assert(dp.update(dp.len() - 1, dp.last().push(c)) =~= done.push(raw@.subrange(start as int, k + 1)));
            }
        }
        k = k + 1;
    }
    let piece = trim_text(raw.substring_char(start, n));
    if piece.unicode_len() > 0 {
        out.push(piece);
    }
    proof {
        let p = raw@.subrange(start as int, n as int);
        assert(raw@.take(n as int) =~= raw@);
        assert(done.push(p).drop_last() =~= done);
        assert(Seq::new(out@.len(), |i: int| out@[i]@) =~= codes_of(done.push(p)));
    }
    out
}

/// Parse a comma-separated watchlist; empty lists and invalid codes are
/// refused.
pub fn parse_watchlist(raw: &str) -> (r: Result<Vec<Symbol>, ConfigError>)
    ensures
        match watchlist_outcome(raw@) {
            Ok(codes) => r matches Ok(v) && watchlist_texts(v@) == codes,
            Err(e) => r matches Err(x) && error_view(x) == e,
        },
{
    let codes = split_codes(raw);
    let ghost cs = codes_of(comma_pieces(raw@));
    proof {
        reveal_strlit("WATCHLIST");
        reveal_strlit("empty watchlist");
        reveal_strlit(": symbol must be exactly 6 digits, got ");
    }
    if codes.len() == 0 {
        return Err(ConfigError::Invalid { field: "WATCHLIST", message: String::from_str("empty watchlist") });
    }
    let mut out: Vec<Symbol> = Vec::new();
    let mut i: usize = 0;
    while i < codes.len()
        invariant
            0 <= i <= codes@.len(),
            cs == Seq::new(codes@.len(), |j: int| codes@[j]@),
            cs == codes_of(comma_pieces(raw@)),
            out@.len() == i,
            forall|j: int| 0 <= j < i ==> is_symbol_text(#[trigger] cs[j]) && out@[j]@ == cs[j],
        decreases codes.len() - i,
    {
        match Symbol::parse(codes[i].as_str()) {
            Ok(s) => {
                out.push(s);
            },
            Err(_) => {
                let q = debug_quoted(codes[i].as_str());
                let mut message = String::from_str(q.as_str());
                message.append(": symbol must be exactly 6 digits, got ");
                message.append(q.as_str());
                proof {
                    assert(!is_symbol_text(cs[i as int]));
                    let w = first_invalid(cs);
                    if w < i {
                        assert(is_symbol_text(cs[w]));
                    } else if w > i {
                        assert(is_symbol_text(cs[i as int]));
                    }
                }
                return Err(ConfigError::Invalid { field: "WATCHLIST", message });
            },
        }
        i = i + 1;
    }
    proof {
        assert(watchlist_texts(out@) =~= cs);
        assert(!(exists|w: int| 0 <= w < cs.len() && !is_symbol_text(#[trigger] cs[w])));
    }
    Ok(out)
}

/// One environment variable as the process sees it.
#[derive(Debug, Clone)]
pub enum EnvValue {
    Absent,
    Present(String),
    /// Present but not Unicode; carries the debug rendering of the raw value.
    NotUnicode(String),
}

/// The environment variables the settings read.
#[derive(Debug, Clone)]
pub struct EnvValues {
    pub trading_mode: EnvValue,
    pub live_trading_confirmed: EnvValue,
    pub kis_environment: EnvValue,
    pub paper_backend: EnvValue,
    pub kis_app_key: EnvValue,
    pub kis_app_secret: EnvValue,
    pub kis_account_number: EnvValue,
    pub watchlist: EnvValue,
    pub database_path: EnvValue,
    pub risk_max_order_notional: EnvValue,
    pub risk_max_position_quantity: EnvValue,
    pub risk_gross_exposure: EnvValue,
    pub risk_daily_loss_limit: EnvValue,
    pub risk_stale_quote_seconds: EnvValue,
}

pub type ErrView = (int, Seq<char>, Seq<char>);

/// An optional variable: absent is `None`; a non-Unicode value is refused.
pub open spec fn optional_spec(key: Seq<char>, v: EnvValue) -> Result<Option<Seq<char>>, ErrView> {
    match v {
        EnvValue::Absent => Ok(None),
        EnvValue::Present(t) => Ok(Some(t@)),
        EnvValue::NotUnicode(raw) => Err(invalid("environment"@, key + " is not valid unicode: "@ + raw@)),
    }
}

fn read_optional(key: &'static str, v: &EnvValue) -> (r: Result<Option<String>, ConfigError>)
    ensures
        match optional_spec(key@, *v) {
            Ok(None) => r matches Ok(None),
            Ok(Some(t)) => r matches Ok(Some(x)) && x@ == t,
            Err(e) => r matches Err(x) && error_view(x) == e,
        },
{
    match v {
        EnvValue::Absent => Ok(None),
        EnvValue::Present(t) => Ok(Some(t.clone())),
        EnvValue::NotUnicode(raw) => {
            let mut message = String::from_str(key);
            message.append(" is not valid unicode: ");
            message.append(raw.as_str());
            proof {
                reveal_strlit(" is not valid unicode: ");
                reveal_strlit("environment");
            }
            Err(ConfigError::Invalid { field: "environment", message })
        },
    }
}

/// ASCII letters in lower case (`str::to_ascii_lowercase`).
pub open spec fn ascii_lower(s: Seq<char>) -> Seq<char> {
    Seq::new(s.len(), |i: int| if 'A' <= s[i] && s[i] <= 'Z' { ((s[i] as u32) + 32) as char } else { s[i] })
}

/// The lower-case letter of an upper-case ASCII letter, as text.
fn lower_letter(c: char) -> (r: &'static str)
    requires
        'A' <= c <= 'Z',
    ensures
        r@ == seq![((c as u32) + 32) as char],
{
    match c {
        'A' => {
            proof {
                reveal_strlit("a");
            }
            "a"
        },
        'B' => {
            proof {
                reveal_strlit("b");
            }
            "b"
        },
        'C' => {
            proof {
                reveal_strlit("c");
            }
            "c"
        },
        'D' => {
            proof {
                reveal_strlit("d");
            }
            "d"
        },
        'E' => {
            proof {
                reveal_strlit("e");
            }
            "e"
        },
        'F' => {
            proof {
                reveal_strlit("f");
            }
            "f"
        },
        'G' => {
            proof {
                reveal_strlit("g");
            }
            "g"
        },
        'H' => {
            proof {
                reveal_strlit("h");
            }
            "h"
        },
        'I' => {
            proof {
                reveal_strlit("i");
            }
            "i"
        },
        'J' => {
            proof {
                reveal_strlit("j");
            }
            "j"
        },
        'K' => {
            proof {
                reveal_strlit("k");
            }
            "k"
        },
        'L' => {
            proof {
                reveal_strlit("l");
            }
            "l"
        },
        'M' => {
            proof {
                reveal_strlit("m");
            }
            "m"
        },
        'N' => {
            proof {
                reveal_strlit("n");
            }
            "n"
        },
        'O' => {
            proof {
                reveal_strlit("o");
            }
            "o"
        },
        'P' => {
            proof {
                reveal_strlit("p");
            }
            "p"
        },
        'Q' => {
            proof {
                reveal_strlit("q");
            }
            "q"
        },
        'R' => {
            proof {
                reveal_strlit("r");
            }
            "r"
        },
        'S' => {
            proof {
                reveal_strlit("s");
            }
            "s"
        },
        'T' => {
            proof {
                reveal_strlit("t");
            }
            "t"
        },
        'U' => {
            proof {
                reveal_strlit("u");
            }
            "u"
        },
        'V' => {
            proof {
                reveal_strlit("v");
            }
            "v"
        },
        'W' => {
            proof {
                reveal_strlit("w");
            }
            "w"
        },
        'X' => {
            proof {
                reveal_strlit("x");
            }
            "x"
        },
        'Y' => {
            proof {
                reveal_strlit("y");
            }
            "y"
        },
        'Z' => {
            proof {
                reveal_strlit("z");
            }
            "z"
        },
        _ => {
            proof {
                reveal_strlit("z");
            }
            "z"
        },
    }
}

/// ASCII letters `A`-`Z` become `a`-`z`; every other character stays, as
/// `str::to_ascii_lowercase` does.
fn lower_text(s: &str) -> (r: String)
    ensures
        r@ == ascii_lower(s@),
{
    let n = s.unicode_len();
    let mut r = String::new();
    let mut i: usize = 0;
    while i < n
        invariant
            n == s@.len(),
            0 <= i <= n,
            r@ == ascii_lower(s@).take(i as int),
        decreases n - i,
    {
        let c = s.get_char(i);
        if 'A' <= c && c <= 'Z' {
            r.append(lower_letter(c));
        } else {
            r.append(s.substring_char(i, i + 1));
        }
        i = i + 1;
        assert(r@ =~= ascii_lower(s@).take(i as int));
    }
    assert(ascii_lower(s@).take(n as int) =~= ascii_lower(s@));
    r
}

/// A boolean flag: absent is false; `1|true|yes` and `0|false|no|""`
/// (any ASCII case) are accepted.
pub open spec fn flag_spec(key: Seq<char>, v: EnvValue) -> Result<bool, ErrView> {
    match optional_spec(key, v) {
        Err(e) => Err(e),
        Ok(None) => Ok(false),
        Ok(Some(t)) => {
            let l = ascii_lower(t);
            if l == "1"@ || l == "true"@ || l == "yes"@ {
                Ok(true)
            } else if l == "0"@ || l == "false"@ || l == "no"@ || l == ""@ {
                Ok(false)
            } else {
                Err(invalid("flag"@, key + "="@ + debug_text(l) + " is not a boolean"@))
            }
        },
    }
}

fn read_flag(key: &'static str, v: &EnvValue) -> (r: Result<bool, ConfigError>)
    ensures
        match flag_spec(key@, *v) {
            Ok(b) => r == Ok::<bool, ConfigError>(b),
            Err(e) => r matches Err(x) && error_view(x) == e,
        },
{
    proof {
        reveal_strlit("1");
        reveal_strlit("true");
        reveal_strlit("yes");
        reveal_strlit("0");
        reveal_strlit("false");
        reveal_strlit("no");
        reveal_strlit("");
        reveal_strlit("flag");
        reveal_strlit("=");
        reveal_strlit(" is not a boolean");
    }
    let value = match read_optional(key, v) {
        Err(e) => return Err(e),
        Ok(None) => return Ok(false),
        Ok(Some(t)) => t,
    };
    let l = lower_text(value.as_str());
    let t = l.as_str();
    if text_equal(t, "1") || text_equal(t, "true") || text_equal(t, "yes") {
        Ok(true)
    } else if text_equal(t, "0") || text_equal(t, "false") || text_equal(t, "no") || text_equal(t, "") {
        Ok(false)
    } else {
        let mut message = String::from_str(key);
        message.append("=");
        let q = debug_quoted(t);
        message.append(q.as_str());
        message.append(" is not a boolean");
        Err(ConfigError::Invalid { field: "flag", message })
    }
}

pub open spec fn is_digit(c: char) -> bool {
    '0' <= c && c <= '9'
}

/// The number the decimal digits spell.
pub open spec fn digits_value(s: Seq<char>) -> int
    decreases s.len(),
{
    if s.len() == 0 {
        0
    } else {
        digits_value(s.drop_last()) * 10 + (s.last() as int - '0' as int)
    }
}

pub open spec fn all_digits(s: Seq<char>) -> bool {
    forall|i: int| 0 <= i < s.len() ==> is_digit(#[trigger] s[i])
}

/// `str::parse::<i64>`: an optional sign, then one or more ASCII digits,
/// within range.
pub open spec fn parse_i64_spec(s: Seq<char>) -> Option<i64> {
    let negative = s.len() > 0 && s[0] == '-';
    let body = if s.len() > 0 && (s[0] == '+' || s[0] == '-') { s.skip(1) } else { s };
    if body.len() == 0 || !all_digits(body) {
        None
    } else {
        let v = if negative { -digits_value(body) } else { digits_value(body) };
        if i64::MIN <= v <= i64::MAX {
            Some(v as i64)
        } else {
            None
        }
    }
}

/// `str::parse::<u64>`: an optional `+`, then one or more ASCII digits,
/// within range.
pub open spec fn parse_u64_spec(s: Seq<char>) -> Option<u64> {
    let body = if s.len() > 0 && s[0] == '+' { s.skip(1) } else { s };
    if body.len() == 0 || !all_digits(body) {
        None
    } else if digits_value(body) <= u64::MAX {
        Some(digits_value(body) as u64)
    } else {
        None
    }
}

proof fn lemma_digits_grow(s: Seq<char>, k: int)
    requires
        0 <= k <= s.len(),
        all_digits(s),
    ensures
        0 <= digits_value(s.take(k)) <= digits_value(s),
    decreases s.len() - k,
{
    if k < s.len() {
        lemma_digits_grow(s, k + 1);
        assert(s.take(k + 1).drop_last() =~= s.take(k));
        assert(is_digit(s[k]));
    } else {
        assert(s.take(k) =~= s);
    }
    lemma_digits_nonneg(s.take(k), s);
}

proof fn lemma_digits_nonneg(t: Seq<char>, s: Seq<char>)
    requires
        all_digits(s),
        t.len() <= s.len(),
        forall|i: int| 0 <= i < t.len() ==> t[i] == s[i],
    ensures
        digits_value(t) >= 0,
    decreases t.len(),
{
    if t.len() > 0 {
        lemma_digits_nonneg(t.drop_last(), s);
        assert(is_digit(s[t.len() - 1]));
    }
}

/// The value of a run of digits starting at `from`, if it fits in `u64`.
fn digits_u64(s: &str, from: usize) -> (r: Option<u64>)
    requires
        from <= s@.len(),
        all_digits(s@.skip(from as int)),
    ensures
        match r {
            Some(v) => v == digits_value(s@.skip(from as int)),
            None => digits_value(s@.skip(from as int)) > u64::MAX,
        },
{
    let ghost body = s@.skip(from as int);
    let n = s.unicode_len();
    let mut value: u64 = 0;
    let mut k: usize = from;
    assert(body.take(0) =~= Seq::<char>::empty());
    while k < n
        invariant
            n == s@.len(),
            from <= k <= n,
            body == s@.skip(from as int),
            all_digits(body),
            value == digits_value(body.take(k - from)),
        decreases n - k,
    {
        let c = s.get_char(k);
        proof {
            assert(body.take(k - from + 1).drop_last() =~= body.take(k - from));
            assert(body.take(k - from + 1).last() == c);
            assert(body[k - from] == c);
            assert(is_digit(c));
        }
        let d = (c as u32 - '0' as u32) as u64;
        let next = match value.checked_mul(10) {
            Some(m) => m.checked_add(d),
            None => None,
        };
        match next {
            Some(v) => {
                value = v;
            },
            None => {
                proof {
                    lemma_digits_grow(body, k - from + 1);
                }
                return None;
            },
        }
        k = k + 1;
    }
    assert(body.take(k - from) =~= body);
    Some(value)
}

pub fn parse_i64(s: &str) -> (r: Option<i64>)
    ensures
        r == parse_i64_spec(s@),
{
    let n = s.unicode_len();
    let negative = n > 0 && s.get_char(0) == '-';
    let start: usize = if n > 0 && (s.get_char(0) == '+' || s.get_char(0) == '-') { 1 } else { 0 };
    proof {
        if start == 0 {
            assert(s@.skip(0) =~= s@);
        }
    }
    if start >= n {
        return None;
    }
    let mut k: usize = start;
    while k < n
        invariant
            n == s@.len(),
            start <= k <= n,
            start == (if n > 0 && (s@[0] == '+' || s@[0] == '-') { 1usize } else { 0usize }),
            forall|i: int| start <= i < k ==> is_digit(#[trigger] s@[i]),
        decreases n - k,
    {
        if !('0' <= s.get_char(k) && s.get_char(k) <= '9') {
            proof {
                assert(!is_digit(s@.skip(start as int)[k - start]));
            }
            return None;
        }
        k = k + 1;
    }
    proof {
        assert forall|i: int| 0 <= i < s@.skip(start as int).len() implies is_digit(#[trigger] s@.skip(start as int)[i]) by {
            assert(s@.skip(start as int)[i] == s@[i + start]);
        }
    }
    match digits_u64(s, start) {
        None => None,
        Some(m) => {
            if negative {
                if m <= 9223372036854775808u64 {
                    if m == 9223372036854775808u64 {
                        Some(i64::MIN)
                    } else {
                        Some(-(m as i64))
                    }
                } else {
                    None
                }
            } else if m <= 9223372036854775807u64 {
                Some(m as i64)
            } else {
                None
            }
        },
    }
}

pub fn parse_u64(s: &str) -> (r: Option<u64>)
    ensures
        r == parse_u64_spec(s@),
{
    let n = s.unicode_len();
    let start: usize = if n > 0 && s.get_char(0) == '+' { 1 } else { 0 };
    proof {
        if start == 0 {
            assert(s@.skip(0) =~= s@);
        }
    }
    if start >= n {
        return None;
    }
    let mut k: usize = start;
    while k < n
        invariant
            n == s@.len(),
            start <= k <= n,
            start == (if n > 0 && s@[0] == '+' { 1usize } else { 0usize }),
            forall|i: int| start <= i < k ==> is_digit(#[trigger] s@[i]),
        decreases n - k,
    {
        if !('0' <= s.get_char(k) && s.get_char(k) <= '9') {
            proof {
                assert(!is_digit(s@.skip(start as int)[k - start]));
            }
            return None;
        }
        k = k + 1;
    }
    proof {
        assert forall|i: int| 0 <= i < s@.skip(start as int).len() implies is_digit(#[trigger] s@.skip(start as int)[i]) by {
            assert(s@.skip(start as int)[i] == s@[i + start]);
        }
    }
    digits_u64(s, start)
}

/// A number variable: absent keeps the default; an unparsable value is
/// refused.
pub open spec fn number_error(key: Seq<char>, value: Seq<char>) -> ErrView {
    invalid("number"@, key + "="@ + debug_text(value) + " is not a valid number"@)
}

pub open spec fn i64_setting(key: Seq<char>, v: EnvValue, default: i64) -> Result<i64, ErrView> {
    match optional_spec(key, v) {
        Err(e) => Err(e),
        Ok(None) => Ok(default),
        Ok(Some(t)) => match parse_i64_spec(t) {
            Some(n) => Ok(n),
            None => Err(number_error(key, t)),
        },
    }
}

pub open spec fn u64_setting(key: Seq<char>, v: EnvValue, default: u64) -> Result<u64, ErrView> {
    match optional_spec(key, v) {
        Err(e) => Err(e),
        Ok(None) => Ok(default),
        Ok(Some(t)) => match parse_u64_spec(t) {
            Some(n) => Ok(n),
            None => Err(number_error(key, t)),
        },
    }
}

fn number_invalid(key: &'static str, value: &str) -> (r: ConfigError)
    ensures
        error_view(r) == number_error(key@, value@),
{
    let mut message = String::from_str(key);
    message.append("=");
    let q = debug_quoted(value);
    message.append(q.as_str());
    message.append(" is not a valid number");
    proof {
        reveal_strlit("=");
        reveal_strlit(" is not a valid number");
        reveal_strlit("number");
    }
    ConfigError::Invalid { field: "number", message }
}

fn read_i64(key: &'static str, v: &EnvValue, default: i64) -> (r: Result<i64, ConfigError>)
    ensures
        match i64_setting(key@, *v, default) {
            Ok(n) => r == Ok::<i64, ConfigError>(n),
            Err(e) => r matches Err(x) && error_view(x) == e,
        },
{
    match read_optional(key, v) {
        Err(e) => Err(e),
        Ok(None) => Ok(default),
        Ok(Some(t)) => match parse_i64(t.as_str()) {
            Some(n) => Ok(n),
            None => Err(number_invalid(key, t.as_str())),
        },
    }
}

fn read_u64(key: &'static str, v: &EnvValue, default: u64) -> (r: Result<u64, ConfigError>)
    ensures
        match u64_setting(key@, *v, default) {
            Ok(n) => r == Ok::<u64, ConfigError>(n),
            Err(e) => r matches Err(x) && error_view(x) == e,
        },
{
    match read_optional(key, v) {
        Err(e) => Err(e),
        Ok(None) => Ok(default),
        Ok(Some(t)) => match parse_u64(t.as_str()) {
            Some(n) => Ok(n),
            None => Err(number_invalid(key, t.as_str())),
        },
    }
}

/// Settings as plain values.
pub struct SettingsView {
    pub trading_mode: TradingMode,
    pub live_trading_confirmed: bool,
    pub kis_environment: KisEnvironment,
    pub paper_backend: PaperBackend,
    pub kis_app_key: Seq<char>,
    pub kis_app_secret: Seq<char>,
    pub kis_account_number: Seq<char>,
    pub database_path: Seq<char>,
    pub risk: RiskSettings,
    pub history_window_bars: usize,
    pub watchlist: Seq<Seq<char>>,
}

impl View for Settings {
    type V = SettingsView;

    open spec fn view(&self) -> SettingsView {
        SettingsView {
            trading_mode: self.trading_mode,
            live_trading_confirmed: self.live_trading_confirmed,
            kis_environment: self.kis_environment,
            paper_backend: self.paper_backend,
            kis_app_key: self.kis_app_key@,
            kis_app_secret: self.kis_app_secret@,
            kis_account_number: self.kis_account_number@,
            database_path: self.database_path@,
            risk: self.risk,
            history_window_bars: self.history_window_bars,
            watchlist: watchlist_texts(self.watchlist@),
        }
    }
}

pub open spec fn mode_spec(v: EnvValue) -> Result<TradingMode, ErrView> {
    match optional_spec("TRADING_MODE"@, v) {
        Err(e) => Err(e),
        Ok(None) => Ok(TradingMode::Paper),
        Ok(Some(t)) => if t == "paper"@ {
            Ok(TradingMode::Paper)
        } else if t == "live"@ {
            Ok(TradingMode::Live)
        } else {
            Err((0, Seq::empty(), t))
        },
    }
}

pub open spec fn environment_spec(v: EnvValue) -> Result<KisEnvironment, ErrView> {
    match optional_spec("KIS_ENVIRONMENT"@, v) {
        Err(e) => Err(e),
        Ok(None) => Ok(KisEnvironment::Mock),
        Ok(Some(t)) => if t == "mock"@ {
            Ok(KisEnvironment::Mock)
        } else if t == "real"@ {
            Ok(KisEnvironment::Real)
        } else {
            Err(invalid("KIS_ENVIRONMENT"@, "unknown value "@ + debug_text(t) + " (expected mock|real)"@))
        },
    }
}

pub open spec fn backend_spec(v: EnvValue) -> Result<PaperBackend, ErrView> {
    match optional_spec("PAPER_BACKEND"@, v) {
        Err(e) => Err(e),
        Ok(None) => Ok(PaperBackend::Memory),
        Ok(Some(t)) => if t == "memory"@ {
            Ok(PaperBackend::Memory)
        } else if t == "kis"@ {
            Ok(PaperBackend::Kis)
        } else {
            Err(invalid("PAPER_BACKEND"@, "unknown value "@ + debug_text(t) + " (expected memory|kis)"@))
        },
    }
}

/// An optional text, empty when absent.
pub open spec fn text_or_empty(key: Seq<char>, v: EnvValue) -> Result<Seq<char>, ErrView> {
    match optional_spec(key, v) {
        Err(e) => Err(e),
        Ok(None) => Ok(Seq::empty()),
        Ok(Some(t)) => Ok(t),
    }
}

pub open spec fn watchlist_setting(v: EnvValue) -> Result<Seq<Seq<char>>, ErrView> {
    match optional_spec("WATCHLIST"@, v) {
        Err(e) => Err(e),
        Ok(None) => Ok(default_watchlist_texts()),
        Ok(Some(raw)) => watchlist_outcome(raw),
    }
}

pub open spec fn database_setting(v: EnvValue) -> Result<Seq<char>, ErrView> {
    match optional_spec("DATABASE_PATH"@, v) {
        Err(e) => Err(e),
        Ok(None) => Ok("data/lossfunction.db"@),
        Ok(Some(t)) => Ok(t),
    }
}

pub open spec fn risk_setting(v: EnvValues) -> Result<RiskSettings, ErrView> {
    let d = RiskSettings::default_spec();
    match i64_setting("RISK_MAX_ORDER_NOTIONAL"@, v.risk_max_order_notional, d.max_order_notional) {
        Err(e) => Err(e),
        Ok(notional) => match i64_setting("RISK_MAX_POSITION_QUANTITY"@, v.risk_max_position_quantity, d.max_position_quantity) {
            Err(e) => Err(e),
            Ok(quantity) => match i64_setting("RISK_GROSS_EXPOSURE"@, v.risk_gross_exposure, d.gross_exposure) {
                Err(e) => Err(e),
                Ok(gross) => match i64_setting("RISK_DAILY_LOSS_LIMIT"@, v.risk_daily_loss_limit, d.daily_loss_limit) {
                    Err(e) => Err(e),
                    Ok(loss) => match u64_setting("RISK_STALE_QUOTE_SECONDS"@, v.risk_stale_quote_seconds, d.stale_quote_seconds) {
                        Err(e) => Err(e),
                        Ok(stale) => Ok(
                            RiskSettings {
                                max_order_notional: notional,
                                max_position_quantity: quantity,
                                gross_exposure: gross,
                                daily_loss_limit: loss,
                                stale_quote_seconds: stale,
                            },
                        ),
                    },
                },
            },
        },
    }
}

/// The paper/live rules on a loaded view.
pub open spec fn rules_spec(s: SettingsView) -> Result<SettingsView, ErrView> {
    if s.trading_mode == TradingMode::Live && !s.live_trading_confirmed {
        Err((1, Seq::empty(), Seq::empty()))
    } else if s.trading_mode == TradingMode::Live && s.kis_environment != KisEnvironment::Real {
        Err((2, Seq::empty(), Seq::empty()))
    } else {
        Ok(s)
    }
}

/// Settings from the environment: defaults overridden by each variable in
/// turn (the first refusal wins), then the paper/live rules.
pub open spec fn load_spec(v: EnvValues) -> Result<SettingsView, ErrView> {
    match mode_spec(v.trading_mode) {
        Err(e) => Err(e),
        Ok(mode) => match flag_spec("LIVE_TRADING_CONFIRMED"@, v.live_trading_confirmed) {
            Err(e) => Err(e),
            Ok(confirmed) => match environment_spec(v.kis_environment) {
                Err(e) => Err(e),
                Ok(environment) => match backend_spec(v.paper_backend) {
                    Err(e) => Err(e),
                    Ok(backend) => match text_or_empty("KIS_APP_KEY"@, v.kis_app_key) {
                        Err(e) => Err(e),
                        Ok(key) => match text_or_empty("KIS_APP_SECRET"@, v.kis_app_secret) {
                            Err(e) => Err(e),
                            Ok(secret) => match text_or_empty("KIS_ACCOUNT_NUMBER"@, v.kis_account_number) {
                                Err(e) => Err(e),
                                Ok(account) => match watchlist_setting(v.watchlist) {
                                    Err(e) => Err(e),
                                    Ok(watchlist) => match database_setting(v.database_path) {
                                        Err(e) => Err(e),
                                        Ok(database) => match risk_setting(v) {
                                            Err(e) => Err(e),
                                            Ok(risk) => rules_spec(
                                                SettingsView {
                                                    trading_mode: mode,
                                                    live_trading_confirmed: confirmed,
                                                    kis_environment: environment,
                                                    paper_backend: backend,
                                                    kis_app_key: key,
                                                    kis_app_secret: secret,
                                                    kis_account_number: account,
                                                    database_path: database,
                                                    risk,
                                                    history_window_bars: 120,
                                                    watchlist,
                                                },
                                            ),
                                        },
                                    },
                                },
                            },
                        },
                    },
                },
            },
        },
    }
}

fn unknown_value(field: &'static str, value: &str, expected: &'static str) -> (r: ConfigError)
    ensures
        error_view(r) == invalid(field@, "unknown value "@ + debug_text(value@) + expected@),
{
    let mut message = String::from_str("unknown value ");
    let q = debug_quoted(value);
    message.append(q.as_str());
    message.append(expected);
    proof {
        reveal_strlit("unknown value ");
    }
    ConfigError::Invalid { field, message }
}

fn text_value(key: &'static str, v: &EnvValue) -> (r: Result<String, ConfigError>)
    ensures
        match text_or_empty(key@, *v) {
            Ok(t) => r matches Ok(x) && x@ == t,
            Err(e) => r matches Err(x) && error_view(x) == e,
        },
{
    match read_optional(key, v) {
        Err(e) => Err(e),
        Ok(None) => Ok(String::new()),
        Ok(Some(t)) => Ok(t),
    }
}

impl Settings {
    /// Settings from the environment's values, validating the paper/live
    /// separation rules before returning.
    #[verifier::rlimit(50)]
    pub fn from_env(values: &EnvValues) -> (r: Result<Settings, ConfigError>)
        ensures
            match load_spec(*values) {
                Ok(v) => r matches Ok(s) && s@ == v,
                Err(e) => r matches Err(x) && error_view(x) == e,
            },
    {
        proof {
            reveal_strlit("TRADING_MODE");
            reveal_strlit("paper");
            reveal_strlit("live");
            reveal_strlit("LIVE_TRADING_CONFIRMED");
            reveal_strlit("KIS_ENVIRONMENT");
            reveal_strlit("mock");
            reveal_strlit("real");
            reveal_strlit(" (expected mock|real)");
            reveal_strlit("PAPER_BACKEND");
            reveal_strlit("memory");
            reveal_strlit("kis");
            reveal_strlit(" (expected memory|kis)");
            reveal_strlit("KIS_APP_KEY");
            reveal_strlit("KIS_APP_SECRET");
            reveal_strlit("KIS_ACCOUNT_NUMBER");
            reveal_strlit("WATCHLIST");
            reveal_strlit("DATABASE_PATH");
            reveal_strlit("data/lossfunction.db");
            reveal_strlit("RISK_MAX_ORDER_NOTIONAL");
            reveal_strlit("RISK_MAX_POSITION_QUANTITY");
            reveal_strlit("RISK_GROSS_EXPOSURE");
            reveal_strlit("RISK_DAILY_LOSS_LIMIT");
            reveal_strlit("RISK_STALE_QUOTE_SECONDS");
        }
        let trading_mode = match read_optional("TRADING_MODE", &values.trading_mode) {
            Err(e) => return Err(e),
            Ok(None) => TradingMode::Paper,
            Ok(Some(t)) => {
                if text_equal(t.as_str(), "paper") {
                    TradingMode::Paper
                } else if text_equal(t.as_str(), "live") {
                    TradingMode::Live
                } else {
                    return Err(ConfigError::UnknownTradingMode(t));
                }
            },
        };
        let live_trading_confirmed = match read_flag("LIVE_TRADING_CONFIRMED", &values.live_trading_confirmed) {
            Err(e) => return Err(e),
            Ok(b) => b,
        };
        let kis_environment = match read_optional("KIS_ENVIRONMENT", &values.kis_environment) {
            Err(e) => return Err(e),
            Ok(None) => KisEnvironment::Mock,
            Ok(Some(t)) => {
                if text_equal(t.as_str(), "mock") {
                    KisEnvironment::Mock
                } else if text_equal(t.as_str(), "real") {
                    KisEnvironment::Real
                } else {
                    return Err(unknown_value("KIS_ENVIRONMENT", t.as_str(), " (expected mock|real)"));
                }
            },
        };
        let paper_backend = match read_optional("PAPER_BACKEND", &values.paper_backend) {
            Err(e) => return Err(e),
            Ok(None) => PaperBackend::Memory,
            Ok(Some(t)) => {
                if text_equal(t.as_str(), "memory") {
                    PaperBackend::Memory
                } else if text_equal(t.as_str(), "kis") {
                    PaperBackend::Kis
                } else {
                    return Err(unknown_value("PAPER_BACKEND", t.as_str(), " (expected memory|kis)"));
                }
            },
        };
        let key = text_value("KIS_APP_KEY", &values.kis_app_key)?;
        let secret = text_value("KIS_APP_SECRET", &values.kis_app_secret)?;
        let account = text_value("KIS_ACCOUNT_NUMBER", &values.kis_account_number)?;
        let watchlist = match read_optional("WATCHLIST", &values.watchlist) {
            Err(e) => return Err(e),
            Ok(None) => default_watchlist(),
            Ok(Some(raw)) => parse_watchlist(raw.as_str())?,
        };
        let database_path = match read_optional("DATABASE_PATH", &values.database_path) {
            Err(e) => return Err(e),
            Ok(None) => String::from_str("data/lossfunction.db"),
            Ok(Some(t)) => t,
        };
        let d = RiskSettings::default();
        let notional = read_i64("RISK_MAX_ORDER_NOTIONAL", &values.risk_max_order_notional, d.max_order_notional)?;
        let quantity = read_i64("RISK_MAX_POSITION_QUANTITY", &values.risk_max_position_quantity, d.max_position_quantity)?;
        let gross = read_i64("RISK_GROSS_EXPOSURE", &values.risk_gross_exposure, d.gross_exposure)?;
        let loss = read_i64("RISK_DAILY_LOSS_LIMIT", &values.risk_daily_loss_limit, d.daily_loss_limit)?;
        let stale = read_u64("RISK_STALE_QUOTE_SECONDS", &values.risk_stale_quote_seconds, d.stale_quote_seconds)?;
        let settings = Settings {
            trading_mode,
            live_trading_confirmed,
            kis_environment,
            paper_backend,
            kis_app_key: Secret(key),
            kis_app_secret: Secret(secret),
            kis_account_number: account,
            database_path,
            risk: RiskSettings {
                max_order_notional: notional,
                max_position_quantity: quantity,
                gross_exposure: gross,
                daily_loss_limit: loss,
                stale_quote_seconds: stale,
            },
            history_window_bars: 120,
            watchlist,
        };
        settings.validate()?;
        Ok(settings)
    }
}

/// Live trading never loads unconfirmed: whatever the environment holds,
/// settings that load in live mode carry the explicit confirmation and the
/// real KIS domain.
pub proof fn loaded_live_is_confirmed(values: EnvValues)
    ensures
        load_spec(values) matches Ok(s) ==> (s.trading_mode == TradingMode::Live ==> s.live_trading_confirmed
            && s.kis_environment == KisEnvironment::Real),
{
}

} // verus!

//! Market-analysis integration: the reply classification and the text the
//! JSON is read from. A malformed analysis is rejected, never best-effort
//! parsed; the model call, the schema mapping (its confidence is a float)
//! and the fallback are the application's.

use vstd::prelude::*;
use crate::config::{trim_text, trimmed};
use crate::text::{int_text, starts_with_text, text_starts_with, u64_text};

verus! {

#[derive(Debug, Clone, Copy, PartialEq, Eq, Structural)]
pub enum Regime {
    TrendingUp,
    TrendingDown,
    Range,
    Volatile,
    Unknown,
}

impl Regime {
    /// The wire name (snake case).
    pub fn as_str(&self) -> (r: &'static str)
        ensures
            r@ == match *self {
                Regime::TrendingUp => "trending_up"@,
                Regime::TrendingDown => "trending_down"@,
                Regime::Range => "range"@,
                Regime::Volatile => "volatile"@,
                Regime::Unknown => "unknown"@,
            },
    {
        match self {
            Regime::TrendingUp => "trending_up",
            Regime::TrendingDown => "trending_down",
            Regime::Range => "range",
            Regime::Volatile => "volatile",
            Regime::Unknown => "unknown",
        }
    }
}

#[derive(Debug, Clone, Copy, PartialEq, Eq, Structural)]
pub enum GlmErrorKind {
    Network,
    Server,
    Auth,
    SchemaViolation,
    Empty,
}

pub open spec fn glm_kind_name(k: GlmErrorKind) -> Seq<char> {
    match k {
        GlmErrorKind::Network => "Network"@,
        GlmErrorKind::Server => "Server"@,
        GlmErrorKind::Auth => "Auth"@,
        GlmErrorKind::SchemaViolation => "SchemaViolation"@,
        GlmErrorKind::Empty => "Empty"@,
    }
}

#[derive(Debug, Clone)]
pub struct GlmError {
    pub kind: GlmErrorKind,
    pub message: String,
}

impl GlmError {
    /// A schema violation with `message`.
    pub fn schema(message: &str) -> (r: GlmError)
        ensures
            r.kind == GlmErrorKind::SchemaViolation,
            r.message@ == message@,
    {
        GlmError { kind: GlmErrorKind::SchemaViolation, message: String::from_str(message) }
    }

    /// `"{kind:?}: {message}"`.
    pub fn text(&self) -> (r: String)
        ensures
            r@ == glm_kind_name(self.kind) + ": "@ + self.message@,
    {
        let mut r = String::from_str(match self.kind {
            GlmErrorKind::Network => "Network",
            GlmErrorKind::Server => "Server",
            GlmErrorKind::Auth => "Auth",
            GlmErrorKind::SchemaViolation => "SchemaViolation",
            GlmErrorKind::Empty => "Empty",
        });
        r.append(": ");
        r.append(self.message.as_str());
        r
    }
}

/// How the HTTP library displays a status code: the number and its
/// canonical reason phrase (`"401 Unauthorized"`).
pub uninterp spec fn status_display(status: u16) -> Seq<char>;

/// `reqwest::StatusCode`'s `Display` for `status`; a number outside
/// 100..=999, which it cannot hold, is shown bare.
#[verifier::external_body]
fn status_text(status: u16) -> (r: String)
    ensures
        r@ == status_display(status),
{
    match reqwest::StatusCode::from_u16(status) {
        Ok(code) => code.to_string(),
        Err(_) => status.to_string(),
    }
}

/// What a reply status means: 200 proceeds; 401/403 is an auth refusal;
/// 5xx a server error; anything else an empty answer.
pub open spec fn glm_status_verdict(status: u16) -> Option<(GlmErrorKind, Seq<char>)> {
    if status == 200 {
        None
    } else if status == 401 || status == 403 {
        Some((GlmErrorKind::Auth, "rejected: "@ + status_display(status)))
    } else if status >= 500 {
        Some((GlmErrorKind::Server, "server error "@ + int_text(status as int)))
    } else {
        Some((GlmErrorKind::Empty, "unexpected status "@ + int_text(status as int)))
    }
}

pub fn glm_status_error(status: u16) -> (r: Option<GlmError>)
    ensures
        match glm_status_verdict(status) {
            None => r is None,
            Some((k, m)) => r matches Some(e) && e.kind == k && e.message@ == m,
        },
{
    if status == 200 {
        None
    } else if status == 401 || status == 403 {
        let mut m = String::from_str("rejected: ");
        let s = status_text(status);
        m.append(s.as_str());
        Some(GlmError { kind: GlmErrorKind::Auth, message: m })
    } else if status >= 500 {
        let mut m = String::from_str("server error ");
        let s = u64_text(status as u64);
        m.append(s.as_str());
        Some(GlmError { kind: GlmErrorKind::Server, message: m })
    } else {
        let mut m = String::from_str("unexpected status ");
        let s = u64_text(status as u64);
        m.append(s.as_str());
        Some(GlmError { kind: GlmErrorKind::Empty, message: m })
    }
}

pub open spec fn strip_leading(s: Seq<char>, c: char) -> Seq<char>
    decreases s.len(),
{
    if s.len() > 0 && s[0] == c { strip_leading(s.skip(1), c) } else { s }
}

pub open spec fn strip_trailing(s: Seq<char>, c: char) -> Seq<char>
    decreases s.len(),
{
    if s.len() > 0 && s.last() == c { strip_trailing(s.drop_last(), c) } else { s }
}

/// The text the analysis JSON is read from: trimmed, and when fenced, with
/// every backtick stripped from both ends, an optional `json` tag dropped
/// and the rest trimmed.
pub open spec fn json_candidate_text(text: Seq<char>) -> Seq<char> {
    let t = trimmed(text);
    if starts_with_text(t, "```"@) {
        let u = strip_trailing(strip_leading(t, '`'), '`');
        let v = if starts_with_text(u, "json"@) { u.skip(4) } else { u };
        trimmed(v)
    } else {
        t
    }
}

pub fn json_candidate(text: &str) -> (r: String)
    ensures
        r@ == json_candidate_text(text@),
{
    proof {
        reveal_strlit("```");
        reveal_strlit("json");
    }
    let t = trim_text(text);
    if !text_starts_with(t.as_str(), "```") {
        return t;
    }
    let s = t.as_str();
    let n = s.unicode_len();
    let mut a: usize = 0;
    assert(s@.skip(0) =~= s@);
    while a < n && s.get_char(a) == '`'
        invariant
            n == s@.len(),
            0 <= a <= n,
            strip_leading(s@, '`') == strip_leading(s@.skip(a as int), '`'),
        decreases n - a,
    {
        assert(s@.skip(a as int).skip(1) =~= s@.skip(a + 1));
        a = a + 1;
    }
    assert(strip_leading(s@.skip(a as int), '`') == s@.skip(a as int));
    let mut b: usize = n;
    assert(s@.subrange(a as int, n as int) =~= s@.skip(a as int));
    while b > a && s.get_char(b - 1) == '`'
        invariant
            n == s@.len(),
            0 <= a <= b <= n,
            strip_trailing(strip_leading(s@, '`'), '`') == strip_trailing(s@.subrange(a as int, b as int), '`'),
        decreases b,
    {
        assert(s@.subrange(a as int, b as int).drop_last() =~= s@.subrange(a as int, b - 1));
        b = b - 1;
    }
    let u = s.substring_char(a, b);
    assert(strip_trailing(s@.subrange(a as int, b as int), '`') == s@.subrange(a as int, b as int));
    let m = u.unicode_len();
    if text_starts_with(u, "json") {
        assert(u@.subrange(4, m as int) =~= u@.skip(4));
        trim_text(u.substring_char(4, m))
    } else {
        trim_text(u)
    }
}

} // verus!

//! KIS OAuth access-token lifecycle.
//!
//! `POST {base}/oauth2/tokenP` with JSON body `{"grant_type":
//! "client_credentials", "appkey", "appsecret"}`; the 200 response carries
//! `access_token` and `access_token_token_expired` (`"%Y-%m-%d %H:%M:%S"`
//! KST wall time, ~1 day validity). The token is cached, proactively
//! re-issued before expiry (margin), and failures are classified so callers
//! can decide between retry and halt.

use vstd::prelude::*;
use chrono::{FixedOffset, NaiveDateTime, Utc};
use crate::broker::BrokerError;
use crate::text::{int_text, text_equal, u64_text};
use crate::types::Timestamp;

verus! {

pub open spec fn base_url_for(environment: Seq<char>) -> Seq<char> {
    if environment == "real"@ {
        "https://openapi.koreainvestment.com:9443"@
    } else {
        "https://openapivts.koreainvestment.com:9443"@
    }
}

pub fn kis_base_url(environment: &str) -> (r: &'static str)
    ensures
        r@ == base_url_for(environment@),
{
    proof {
        reveal_strlit("real");
        reveal_strlit("https://openapi.koreainvestment.com:9443");
        reveal_strlit("https://openapivts.koreainvestment.com:9443");
    }
    if text_equal(environment, "real") {
        "https://openapi.koreainvestment.com:9443"
    } else {
        "https://openapivts.koreainvestment.com:9443"
    }
}

/// The instant a KST wall-clock text names under a chrono format, in UTC
/// nanoseconds; `None` when the text does not match the format.
pub uninterp spec fn kst_instant(text: Seq<char>, format: Seq<char>) -> Option<Timestamp>;

/// chrono's `NaiveDateTime::parse_from_str(text, format)`, read as KST
/// (+09:00) and converted to UTC nanoseconds.
#[verifier::external_body]
pub(crate) fn parse_kst(text: &str, format: &str) -> (r: Option<Timestamp>)
    ensures
        r == kst_instant(text@, format@),
{
    let naive = match NaiveDateTime::parse_from_str(text, format) {
        Ok(n) => n,
        Err(_) => return None,
    };
    let local = naive.and_local_timezone(FixedOffset::east_opt(9 * 3600)?).single()?;
    local.with_timezone(&Utc).timestamp_nanos_opt()
}

/// Parse the KST wall-time expiry (`"%Y-%m-%d %H:%M:%S"`, no zone marker).
pub fn parse_kst_expiry(raw: &str) -> (r: Option<Timestamp>)
    ensures
        r == kst_instant(raw@, "%Y-%m-%d %H:%M:%S"@),
{
    proof {
        reveal_strlit("%Y-%m-%d %H:%M:%S");
    }
    parse_kst(raw, "%Y-%m-%d %H:%M:%S")
}

#[derive(Debug, Clone, Copy, PartialEq, Eq, Structural)]
pub enum AuthErrorKind {
    /// 401/403 — retrying cannot help.
    InvalidCredentials,
    /// 429 — retry after backoff.
    RateLimited,
    /// 5xx — retry after backoff.
    Server,
    /// Transport-level failure — retry after backoff.
    Network,
    /// 200 but the body is unusable.
    Malformed,
}

pub open spec fn auth_kind_name(k: AuthErrorKind) -> Seq<char> {
    match k {
        AuthErrorKind::InvalidCredentials => "InvalidCredentials"@,
        AuthErrorKind::RateLimited => "RateLimited"@,
        AuthErrorKind::Server => "Server"@,
        AuthErrorKind::Network => "Network"@,
        AuthErrorKind::Malformed => "Malformed"@,
    }
}

#[derive(Debug, Clone)]
pub struct AuthError {
    pub kind: AuthErrorKind,
    pub message: String,
}

impl AuthError {
    /// `"{kind:?}: {message}"`.
    pub fn text(&self) -> (r: String)
        ensures
            r@ == auth_kind_name(self.kind) + ": "@ + self.message@,
    {
        proof {
            reveal_strlit("InvalidCredentials");
            reveal_strlit("RateLimited");
            reveal_strlit("Server");
            reveal_strlit("Network");
            reveal_strlit("Malformed");
            reveal_strlit(": ");
        }
        let name = match self.kind {
            AuthErrorKind::InvalidCredentials => "InvalidCredentials",
            AuthErrorKind::RateLimited => "RateLimited",
            AuthErrorKind::Server => "Server",
            AuthErrorKind::Network => "Network",
            AuthErrorKind::Malformed => "Malformed",
        };
        let mut t = String::from_str(name);
        t.append(": ");
        t.append(self.message.as_str());
        t
    }

    /// Auth failures reach the broker boundary as internal failures.
    pub fn into_broker_error(&self) -> (r: BrokerError)
        ensures
            r matches BrokerError::Internal(t) && t@ == auth_kind_name(self.kind) + ": "@ + self.message@,
    {
        BrokerError::Internal(self.text())
    }
}

/// The error a token response status means (`None` for 200).
pub open spec fn token_status_error(status: u16, status_text: Seq<char>) -> Option<(AuthErrorKind, Seq<char>)> {
    if status == 200 {
        None
    } else if status == 401 || status == 403 {
        Some((AuthErrorKind::InvalidCredentials, "token request rejected: "@ + status_text))
    } else if status == 429 {
        Some((AuthErrorKind::RateLimited, "rate limited issuing token"@))
    } else if status >= 500 {
        Some((AuthErrorKind::Server, "server error "@ + int_text(status as int) + " issuing token"@))
    } else {
        Some((AuthErrorKind::Malformed, "unexpected status "@ + int_text(status as int) + " issuing token"@))
    }
}

/// Classify a token response status; `status_text` is how the status
/// displays (code and reason).
pub fn classify_token_status(status: u16, status_text: &str) -> (r: Option<AuthError>)
    ensures
        match token_status_error(status, status_text@) {
            None => r is None,
            Some((k, m)) => r matches Some(e) && e.kind == k && e.message@ == m,
        },
{
    proof {
        reveal_strlit("token request rejected: ");
        reveal_strlit("rate limited issuing token");
        reveal_strlit("server error ");
        reveal_strlit(" issuing token");
        reveal_strlit("unexpected status ");
    }
    if status == 200 {
        None
    } else if status == 401 || status == 403 {
        let mut m = String::from_str("token request rejected: ");
        m.append(status_text);
        Some(AuthError { kind: AuthErrorKind::InvalidCredentials, message: m })
    } else if status == 429 {
        Some(AuthError { kind: AuthErrorKind::RateLimited, message: String::from_str("rate limited issuing token") })
    } else {
        let head = if status >= 500 { "server error " } else { "unexpected status " };
        let mut m = String::from_str(head);
        let n = u64_text(status as u64);
        m.append(n.as_str());
        m.append(" issuing token");
        let kind = if status >= 500 { AuthErrorKind::Server } else { AuthErrorKind::Malformed };
        Some(AuthError { kind, message: m })
    }
}

/// A cached access token and its expiry.
#[derive(Debug, Clone)]
pub struct CachedToken {
    pub access_token: String,
    pub expires_at: Timestamp,
}

/// The token a successful response body yields: a non-empty
/// `access_token` and a parsable KST expiry.
pub fn token_from_body(access_token: Option<String>, expires: Option<String>) -> (r: Result<CachedToken, AuthError>)
    ensures
        match access_token {
            None => r matches Err(e) && e.kind == AuthErrorKind::Malformed && e.message@ == "token response missing access_token"@,
            Some(t) => if t@.len() == 0 {
                r matches Err(e) && e.kind == AuthErrorKind::Malformed && e.message@ == "token response missing access_token"@
            } else {
                let raw = match expires {
                    Some(x) => x@,
                    None => Seq::<char>::empty(),
                };
                match kst_instant(raw, "%Y-%m-%d %H:%M:%S"@) {
                    None => r matches Err(e) && e.kind == AuthErrorKind::Malformed
                        && e.message@ == "token response missing/invalid access_token_token_expired"@,
                    Some(at) => r matches Ok(c) && c.access_token@ == t@ && c.expires_at == at,
                }
            },
        },
{
    proof {
        reveal_strlit("token response missing access_token");
        reveal_strlit("token response missing/invalid access_token_token_expired");
        reveal_strlit("");
    }
    let token = match access_token {
        Some(t) => {
            if t.unicode_len() == 0 {
                return Err(AuthError { kind: AuthErrorKind::Malformed, message: String::from_str("token response missing access_token") });
            }
            t
        },
        None => return Err(AuthError { kind: AuthErrorKind::Malformed, message: String::from_str("token response missing access_token") }),
    };
    let raw = match expires {
        Some(x) => x,
        None => String::new(),
    };
    match parse_kst_expiry(raw.as_str()) {
        Some(at) => Ok(CachedToken { access_token: token, expires_at: at }),
        None => Err(AuthError {
            kind: AuthErrorKind::Malformed,
            message: String::from_str("token response missing/invalid access_token_token_expired"),
        }),
    }
}

/// Five minutes, in nanoseconds: tokens are re-issued this long before
/// they expire.
pub const REFRESH_MARGIN: i64 = 300_000_000_000;

/// The token cache: a token is served while `now < expires_at - margin`.
pub struct TokenCache {
    cached: Option<CachedToken>,
    margin: i64,
}

impl TokenCache {
    pub closed spec fn token(self) -> Option<(Seq<char>, Timestamp)> {
        match self.cached {
            Some(c) => Some((c.access_token@, c.expires_at)),
            None => None,
        }
    }

    pub closed spec fn margin_ns(self) -> i64 {
        self.margin
    }

    pub fn new() -> (r: TokenCache)
        ensures
            r.token() is None,
            r.margin_ns() == REFRESH_MARGIN,
    {
        TokenCache { cached: None, margin: REFRESH_MARGIN }
    }

    /// The cached token when it is still fresh at `now`.
    pub fn fresh_token(&self, now: Timestamp) -> (r: Option<String>)
        ensures
            match self.token() {
                Some((t, at)) => if now < at - self.margin_ns() {
                    r matches Some(x) && x@ == t
                } else {
                    r is None
                },
                None => r is None,
            },
    {
        match &self.cached {
            Some(c) => {
                if (now as i128) < (c.expires_at as i128) - (self.margin as i128) {
                    Some(c.access_token.clone())
                } else {
                    None
                }
            },
            None => None,
        }
    }

    pub fn store(&mut self, token: CachedToken)
        ensures
            final(self).token() == Some((token.access_token@, token.expires_at)),
            final(self).margin_ns() == old(self).margin_ns(),
    {
        self.cached = Some(token);
    }

    /// Drop the cached token so the next call re-issues (401 path).
    pub fn invalidate(&mut self)
        ensures
            final(self).token() is None,
            final(self).margin_ns() == old(self).margin_ns(),
    {
        self.cached = None;
    }
}

} // verus!

//! Broker assembly: paper on the in-memory backend is the safe default
//! (zero network); the KIS backend is selected per trading mode and KIS
//! domain; live refuses without the double confirmation (already enforced
//! at settings load — assembly re-checks as defence).

use vstd::prelude::*;
use crate::config::{KisEnvironment, PaperBackend, Settings, TradingMode};
use crate::kis::auth::{base_url_for, kis_base_url};
use crate::kis::rest::{digits_of, parse_account_number};

verus! {

/// What the runtime assembled, for health reporting.
#[derive(Debug, Clone, Copy, PartialEq, Eq, Structural)]
pub enum AssembledBroker {
    /// In-process paper broker (zero network).
    Memory,
    /// KIS-backed broker (mock domain for paper, real for live).
    Kis { environment: KisEnvironment },
}

#[derive(Debug, Clone, Copy, PartialEq, Eq, Structural)]
pub enum AssemblyError {
    LiveNotConfirmed,
    Unavailable(PaperBackend),
    PaperRequiresMockDomain,
}

impl AssemblyError {
    pub open spec fn text(self) -> Seq<char> {
        match self {
            AssemblyError::LiveNotConfirmed =>
                "live broker assembly requires live_trading_confirmed=true and kis_environment=real"@,
            AssemblyError::Unavailable(PaperBackend::Memory) => "backend Memory is not available yet"@,
            AssemblyError::Unavailable(PaperBackend::Kis) => "backend Kis is not available yet"@,
            AssemblyError::PaperRequiresMockDomain =>
                "paper backend must use the mock KIS domain — refusing a real-domain broker under a paper label"@,
        }
    }

    /// The error's rendered text.
    pub fn message(&self) -> (r: String)
        ensures
            r@ == self.text(),
    {
        match self {
            AssemblyError::LiveNotConfirmed => String::from_str(
                "live broker assembly requires live_trading_confirmed=true and kis_environment=real"),
            AssemblyError::Unavailable(PaperBackend::Memory) => String::from_str("backend Memory is not available yet"),
            AssemblyError::Unavailable(PaperBackend::Kis) => String::from_str("backend Kis is not available yet"),
            AssemblyError::PaperRequiresMockDomain => String::from_str(
                "paper backend must use the mock KIS domain — refusing a real-domain broker under a paper label"),
        }
    }
}

/// What the application needs to open the KIS venue: the domain, its base
/// URL, the credentials, the account split 8 + 2 and the trading-mode
/// label the REST client records.
pub struct KisVenue {
    pub environment: KisEnvironment,
    pub environment_name: &'static str,
    pub base_url: &'static str,
    pub app_key: String,
    pub app_secret: String,
    pub cano: String,
    pub prdt: String,
    pub trading_mode: &'static str,
}

pub open spec fn environment_name(e: KisEnvironment) -> Seq<char> {
    match e {
        KisEnvironment::Real => "real"@,
        KisEnvironment::Mock => "mock"@,
    }
}

pub open spec fn mode_name(m: TradingMode) -> Seq<char> {
    match m {
        TradingMode::Paper => "paper"@,
        TradingMode::Live => "live"@,
    }
}

/// The venue for `environment` under these settings.
pub open spec fn venue_ok(v: KisVenue, s: Settings, environment: KisEnvironment) -> bool {
    &&& v.environment == environment
    &&& v.environment_name@ == environment_name(environment)
    &&& v.base_url@ == base_url_for(environment_name(environment))
    &&& v.app_key@ == s.kis_app_key@
    &&& v.app_secret@ == s.kis_app_secret@
    &&& v.cano@ == digits_of(s.kis_account_number@).take(8)
    &&& v.prdt@ == digits_of(s.kis_account_number@).skip(8)
    &&& v.trading_mode@ == mode_name(s.trading_mode)
}

/// Which KIS domain the settings call for, or why none may be assembled;
/// `Ok(None)` is the in-memory backend.
pub open spec fn assembly_choice(s: Settings) -> Result<Option<KisEnvironment>, AssemblyError> {
    match (s.trading_mode, s.paper_backend, s.kis_environment) {
        (TradingMode::Paper, PaperBackend::Memory, _) => Ok(None),
        (TradingMode::Paper, PaperBackend::Kis, KisEnvironment::Mock) => Ok(Some(KisEnvironment::Mock)),
        (TradingMode::Paper, PaperBackend::Kis, KisEnvironment::Real) => Err(AssemblyError::PaperRequiresMockDomain),
        (TradingMode::Live, PaperBackend::Kis, KisEnvironment::Real) =>
            if s.live_trading_confirmed { Ok(Some(KisEnvironment::Real)) } else { Err(AssemblyError::LiveNotConfirmed) },
        (TradingMode::Live, _, _) => Err(AssemblyError::LiveNotConfirmed),
    }
}

/// The venue for one KIS domain; an account number without 10 digits
/// leaves the backend unavailable.
fn build_kis(settings: &Settings, environment: KisEnvironment) -> (r: Result<KisVenue, AssemblyError>)
    ensures
        digits_of(settings.kis_account_number@).len() == 10 ==> (r matches Ok(v) && venue_ok(v, *settings, environment)),
        digits_of(settings.kis_account_number@).len() != 10 ==> r == Err::<KisVenue, AssemblyError>(AssemblyError::Unavailable(PaperBackend::Kis)),
{
    proof {
        reveal_strlit("real");
        reveal_strlit("mock");
    }
    let name: &'static str = match environment {
        KisEnvironment::Real => "real",
        KisEnvironment::Mock => "mock",
    };
    let base_url = kis_base_url(name);
    match parse_account_number(settings.kis_account_number.as_str()) {
        Ok((cano, prdt)) => Ok(KisVenue {
            environment,
            environment_name: name,
            base_url,
            app_key: String::from_str(settings.kis_app_key.expose()),
            app_secret: String::from_str(settings.kis_app_secret.expose()),
            cano,
            prdt,
            trading_mode: settings.trading_mode.as_str(),
        }),
        Err(_) => Err(AssemblyError::Unavailable(PaperBackend::Kis)),
    }
}

/// Select the venue broker the loaded settings call for. `None` is the
/// in-process memory backend.
pub fn assemble_broker(settings: &Settings) -> (r: Result<(Option<KisVenue>, AssembledBroker), AssemblyError>)
    ensures
        match assembly_choice(*settings) {
            Err(e) => r == Err::<(Option<KisVenue>, AssembledBroker), AssemblyError>(e),
            Ok(None) => r matches Ok((None, AssembledBroker::Memory)),
            Ok(Some(env)) => if digits_of(settings.kis_account_number@).len() == 10 {
                r matches Ok((Some(v), b)) && venue_ok(v, *settings, env) && b == (AssembledBroker::Kis { environment: env })
            } else {
                r == Err::<(Option<KisVenue>, AssembledBroker), AssemblyError>(AssemblyError::Unavailable(PaperBackend::Kis))
            },
        },
{
    match (settings.trading_mode, settings.paper_backend, settings.kis_environment) {
        (TradingMode::Paper, PaperBackend::Memory, _) => Ok((None, AssembledBroker::Memory)),
        (TradingMode::Paper, PaperBackend::Kis, KisEnvironment::Mock) => {
            let venue = build_kis(settings, KisEnvironment::Mock)?;
            Ok((Some(venue), AssembledBroker::Kis { environment: KisEnvironment::Mock }))
        },
        (TradingMode::Paper, PaperBackend::Kis, KisEnvironment::Real) => Err(AssemblyError::PaperRequiresMockDomain),
        (TradingMode::Live, PaperBackend::Kis, KisEnvironment::Real) => {
            if !settings.live_trading_confirmed {
                return Err(AssemblyError::LiveNotConfirmed);
            }
            let venue = build_kis(settings, KisEnvironment::Real)?;
            Ok((Some(venue), AssembledBroker::Kis { environment: KisEnvironment::Real }))
        },
        (TradingMode::Live, _, _) => Err(AssemblyError::LiveNotConfirmed),
    }
}

/// A venue broker is never assembled for live trading without the
/// confirmation on the real domain, and paper trading never reaches the
/// real domain.
pub proof fn venues_respect_the_trading_mode(s: Settings)
    ensures
        assembly_choice(s) matches Ok(Some(env)) ==> (s.trading_mode == TradingMode::Live ==> s.live_trading_confirmed
            && env == KisEnvironment::Real),
        assembly_choice(s) matches Ok(Some(env)) ==> (s.trading_mode == TradingMode::Paper ==> env == KisEnvironment::Mock),
        s.trading_mode == TradingMode::Live ==> assembly_choice(s) != Ok::<Option<KisEnvironment>, AssemblyError>(None),
{
}

} // verus!

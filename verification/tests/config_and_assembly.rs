use lossfunction::config::{
    default_watchlist, parse_watchlist, ConfigError, EnvValue, EnvValues, KisEnvironment, PaperBackend, Settings,
    TradingMode,
};
use lossfunction::runtime::assembly::{assemble_broker, AssembledBroker, AssemblyError};

fn absent() -> EnvValues {
    EnvValues {
        trading_mode: EnvValue::Absent,
        live_trading_confirmed: EnvValue::Absent,
        kis_environment: EnvValue::Absent,
        paper_backend: EnvValue::Absent,
        kis_app_key: EnvValue::Absent,
        kis_app_secret: EnvValue::Absent,
        kis_account_number: EnvValue::Absent,
        watchlist: EnvValue::Absent,
        database_path: EnvValue::Absent,
        risk_max_order_notional: EnvValue::Absent,
        risk_max_position_quantity: EnvValue::Absent,
        risk_gross_exposure: EnvValue::Absent,
        risk_daily_loss_limit: EnvValue::Absent,
        risk_stale_quote_seconds: EnvValue::Absent,
    }
}

fn present(text: &str) -> EnvValue {
    EnvValue::Present(text.to_string())
}

fn texts(symbols: &[lossfunction::types::Symbol]) -> Vec<String> {
    symbols.iter().map(|s| s.as_str().to_string()).collect()
}

#[test]
fn watchlist_env_overrides_and_rejects_bad_codes() {
    let mut values = absent();
    let settings = Settings::from_env(&values).unwrap();
    assert_eq!(texts(&settings.watchlist), texts(&default_watchlist()));

    values.watchlist = present(" 005930, 000660 ");
    let settings = Settings::from_env(&values).unwrap();
    assert_eq!(settings.watchlist.len(), 2);
    assert_eq!(settings.watchlist[0].as_str(), "005930");
    assert_eq!(settings.watchlist[1].as_str(), "000660");

    values.watchlist = present("005930,GOOSE");
    assert!(matches!(
        Settings::from_env(&values).err().unwrap(),
        ConfigError::Invalid { field: "WATCHLIST", .. }
    ));

    values.watchlist = present(" , ");
    assert!(matches!(
        Settings::from_env(&values).err().unwrap(),
        ConfigError::Invalid { field: "WATCHLIST", .. }
    ));
}

#[test]
fn settings_rules_in_sequence() {
    let mut values = absent();
    let settings = Settings::from_env(&values).unwrap();
    assert_eq!(settings.trading_mode, TradingMode::Paper);
    assert_eq!(settings.paper_backend, PaperBackend::Memory);
    assert_eq!(settings.database_path, "data/lossfunction.db");

    values.database_path = present("data/custom.db");
    let settings = Settings::from_env(&values).unwrap();
    assert_eq!(settings.database_path, "data/custom.db");

    values.trading_mode = present("moon");
    assert!(matches!(Settings::from_env(&values).err().unwrap(), ConfigError::UnknownTradingMode(_)));

    values.trading_mode = present("live");
    values.live_trading_confirmed = EnvValue::Absent;
    assert!(matches!(Settings::from_env(&values).err().unwrap(), ConfigError::LiveNotConfirmed));

    values.live_trading_confirmed = present("true");
    values.kis_environment = present("mock");
    assert!(matches!(Settings::from_env(&values).err().unwrap(), ConfigError::LiveRequiresRealEnvironment));

    values.kis_environment = present("real");
    let settings = Settings::from_env(&values).unwrap();
    assert_eq!(settings.trading_mode, TradingMode::Live);

    // The settings carry no debug rendering at all; the key is reachable
    // only through the secret's explicit accessor.
    values.kis_app_key = present("very-secret-key");
    let settings = Settings::from_env(&values).unwrap();
    assert_eq!(settings.kis_app_key.expose(), "very-secret-key");
}

#[test]
fn watchlist_parser_trims_and_refuses_empty() {
    assert_eq!(texts(&parse_watchlist("069500").unwrap()), vec!["069500"]);
    assert!(parse_watchlist("").is_err());
}

#[test]
fn paper_memory_is_default_and_network_free() {
    let settings = Settings::default();
    let (broker, assembled) = assemble_broker(&settings).unwrap();
    assert!(broker.is_none());
    assert_eq!(assembled, AssembledBroker::Memory);
}

fn settings_with(
    trading_mode: TradingMode,
    confirmed: bool,
    environment: KisEnvironment,
    backend: PaperBackend,
) -> Settings {
    Settings {
        trading_mode,
        live_trading_confirmed: confirmed,
        kis_environment: environment,
        paper_backend: backend,
        kis_account_number: "12345678-01".into(),
        ..Settings::default()
    }
}

#[test]
fn live_without_confirmation_refused() {
    let settings = settings_with(TradingMode::Live, false, KisEnvironment::Real, PaperBackend::Kis);
    assert!(matches!(assemble_broker(&settings), Err(AssemblyError::LiveNotConfirmed)));
}

#[test]
fn live_confirmed_assembles_real_kis() {
    let settings = settings_with(TradingMode::Live, true, KisEnvironment::Real, PaperBackend::Kis);
    let (broker, assembled) = assemble_broker(&settings).unwrap();
    assert!(broker.is_some());
    assert_eq!(assembled, AssembledBroker::Kis { environment: KisEnvironment::Real });
    let venue = broker.unwrap();
    assert_eq!(venue.cano, "12345678");
    assert_eq!(venue.prdt, "01");
    assert_eq!(venue.base_url, "https://openapi.koreainvestment.com:9443");
    assert_eq!(venue.trading_mode, "live");
}

#[test]
fn paper_kis_real_domain_refused() {
    let settings = settings_with(TradingMode::Paper, false, KisEnvironment::Real, PaperBackend::Kis);
    assert!(matches!(assemble_broker(&settings), Err(AssemblyError::PaperRequiresMockDomain)));
}

#[test]
fn paper_kis_assembles_mock_domain() {
    let settings = settings_with(TradingMode::Paper, false, KisEnvironment::Mock, PaperBackend::Kis);
    let (broker, assembled) = assemble_broker(&settings).unwrap();
    assert!(broker.is_some());
    assert_eq!(assembled, AssembledBroker::Kis { environment: KisEnvironment::Mock });
    assert_eq!(broker.unwrap().base_url, "https://openapivts.koreainvestment.com:9443");
}

#[test]
fn kis_backend_without_account_is_unavailable() {
    let mut settings = settings_with(TradingMode::Paper, false, KisEnvironment::Mock, PaperBackend::Kis);
    settings.kis_account_number = "123".into();
    let error = assemble_broker(&settings).err().unwrap();
    assert_eq!(error, AssemblyError::Unavailable(PaperBackend::Kis));
    assert_eq!(error.message(), "backend Kis is not available yet");
}

#[test]
fn config_errors_read_as_operator_messages() {
    let mut values = absent();
    values.trading_mode = present("moon");
    assert_eq!(
        Settings::from_env(&values).err().unwrap().message(),
        "unknown TRADING_MODE \"moon\" (expected paper|live)"
    );
    values.trading_mode = present("live");
    assert_eq!(
        Settings::from_env(&values).err().unwrap().message(),
        "trading_mode=live requires live_trading_confirmed=true; unconfirmed live trading is refused at settings load"
    );
    let invalid = ConfigError::Invalid { field: "WATCHLIST", message: "bad".to_string() };
    assert_eq!(invalid.message(), "invalid WATCHLIST: bad");
    assert_eq!(ConfigError::LiveRequiresRealEnvironment.message(), "trading_mode=live requires kis_environment=real");
}

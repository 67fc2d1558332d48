use helix_db::telemetry::{after_publish, TelemetryFailure};
use helix_db::adapters::{default_timeout_secs, Db3AdapterConfig, PgmlAdapterConfig};
use helix_db::apikeys::{merge_scopes, Claims, SecurityConfig as KeySecurityConfig};
use helix_db::auth::JwtClaims;
use helix_db::config::{RestConfig, TelemetryConfig};
use helix_db::loadtest::{GooseDuration, RunStatus, Scope};
use helix_db::loadtest_config::{LogLevel, ReportFormat, ReportOptions, SchedulerType};
use helix_db::HelixError;

#[test]
fn run_status_text_round_trip() {
    for s in [RunStatus::Pending, RunStatus::Running, RunStatus::Completed, RunStatus::Failed, RunStatus::Cancelled] {
        assert_eq!(RunStatus::from_str(s.as_str()), s);
    }
    assert_eq!(RunStatus::Cancelled.as_str(), "cancelled");
    assert_eq!(RunStatus::from_str("bogus"), RunStatus::Pending);
}

#[test]
fn scope_text() {
    assert_eq!(Scope::ReadLoadTests.as_str(), "read:loadtests");
    assert_eq!(Scope::WriteLoadTests.as_str(), "write:loadtests");
}

#[test]
fn duration_seconds() {
    assert_eq!(GooseDuration { seconds: 90 }.as_secs(), 90);
}

#[test]
fn claims_scopes_split_on_whitespace() {
    let c = Claims {
        iss: "i".into(),
        aud: "a".into(),
        sub: "s".into(),
        email: "e".into(),
        scope: "  read:loadtests\twrite:loadtests \n admin ".into(),
        iat: 0,
        exp: 1,
        jti: "j".into(),
    };
    assert_eq!(c.scopes(), vec!["read:loadtests", "write:loadtests", "admin"]);
}

#[test]
fn key_service_defaults() {
    assert_eq!(KeySecurityConfig::default_issuer(), "maid.apikeys");
    assert_eq!(KeySecurityConfig::default_audience(), "maid.clients");
    assert_eq!(KeySecurityConfig::default_expiry(), 60);
    assert_eq!(KeySecurityConfig::default_scopes(), vec!["read:loadtests", "write:loadtests"]);
    assert_eq!(KeySecurityConfig::default_key_prefix(), "maid_live_");
}

#[test]
fn helix_config_defaults() {
    let rest = RestConfig::default();
    assert_eq!(rest.bind_addr, "0.0.0.0:6969");
    assert!(rest.cors_allowed_origins.is_empty());
    let t = TelemetryConfig::default();
    assert_eq!(t.prometheus_endpoint.as_deref(), Some("0.0.0.0:9600"));
    assert!(t.enable_logs);
}

#[test]
fn load_test_defaults() {
    assert_eq!(ReportOptions::default().formats, vec![ReportFormat::Json, ReportFormat::Csv, ReportFormat::Html]);
    assert_eq!(SchedulerType::default(), SchedulerType::RoundRobin);
    assert_eq!(LogLevel::default(), LogLevel::Info);
    assert_eq!(default_timeout_secs(), 30);
    assert_eq!(Db3AdapterConfig::default_name(), "db3");
    assert_eq!(PgmlAdapterConfig::default_name(), "pgml");
}

#[test]
fn jwt_claims_validation() {
    let mut c = JwtClaims { sub: "u".into(), iss: "i".into(), aud: "a".into(), exp: 0, scopes: None, roles: None };
    assert!(c.validate().is_ok());
    c.aud = String::new();
    assert!(matches!(c.validate(), Err(HelixError::Authentication)));
}

#[test]
fn telemetry_failure_policy() {
    let failed = || Err(HelixError::Telemetry("full".into()));
    match after_publish(failed(), TelemetryFailure::Fatal) {
        Err(HelixError::Telemetry(m)) => assert_eq!(m, "full"),
        _ => panic!("expected the telemetry error"),
    }
    assert!(after_publish(failed(), TelemetryFailure::Ignored).is_ok());
    assert!(after_publish(Ok(()), TelemetryFailure::Fatal).is_ok());
}

#[test]
fn merged_scopes_are_sorted_and_unique() {
    let default = vec!["write:loadtests".to_string(), "read:loadtests".to_string()];
    let provided = vec!["admin".to_string(), "read:loadtests".to_string(), "read".to_string()];
    assert_eq!(
        merge_scopes(&default, &provided),
        vec!["admin", "read", "read:loadtests", "write:loadtests"]
    );
    assert!(merge_scopes(&[], &[]).is_empty());
}

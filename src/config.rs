use vstd::prelude::*;

use std::collections::HashMap;

verus! {

/// Where the REST transport listens and which origins it admits.
pub struct RestConfig {
    pub bind_addr: String,
    pub cors_allowed_origins: Vec<String>,
}

impl Default for RestConfig {
    fn default() -> (r: RestConfig)
        ensures
            r.bind_addr@ == "0.0.0.0:6969"@,
            r.cors_allowed_origins@.len() == 0,
    {
        RestConfig { bind_addr: String::from_str("0.0.0.0:6969"), cors_allowed_origins: Vec::new() }
    }
}

/// A configured API key and the scopes it grants.
pub struct ApiKeyConfig {
    pub name: String,
    pub key: String,
    pub scopes: Vec<String>,
}

/// Credentials and role rules of the authorization layer.
pub struct SecurityConfig {
    pub api_keys: Vec<ApiKeyConfig>,
    pub jwt_issuer: Option<String>,
    pub jwt_audience: Option<String>,
    pub rbac_roles: HashMap<String, Vec<String>>,
}

impl Default for SecurityConfig {
    fn default() -> (r: SecurityConfig)
        ensures
            r.api_keys@.len() == 0,
            r.jwt_issuer is None,
            r.jwt_audience is None,
            r.rbac_roles@ == Map::<String, Vec<String>>::empty(),
    {
        SecurityConfig {
            api_keys: Vec::new(),
            jwt_issuer: None,
            jwt_audience: None,
            rbac_roles: HashMap::new(),
        }
    }
}

/// Where metrics are exported and whether telemetry is logged.
pub struct TelemetryConfig {
    pub prometheus_endpoint: Option<String>,
    pub enable_logs: bool,
}

impl Default for TelemetryConfig {
    fn default() -> (r: TelemetryConfig)
        ensures
            r.prometheus_endpoint matches Some(e) && e@ == "0.0.0.0:9600"@,
            r.enable_logs,
    {
        TelemetryConfig {
            prometheus_endpoint: Some(String::from_str("0.0.0.0:9600")),
            enable_logs: true,
        }
    }
}

/// The features switched on for each plugin family.
pub struct HelixFeatureFlags {
    pub braindb: Vec<String>,
    pub pgml: Vec<String>,
    pub db3: Vec<String>,
}

impl Default for HelixFeatureFlags {
    fn default() -> (r: HelixFeatureFlags)
        ensures
            r.braindb@.len() == 0,
            r.pgml@.len() == 0,
            r.db3@.len() == 0,
    {
        HelixFeatureFlags { braindb: Vec::new(), pgml: Vec::new(), db3: Vec::new() }
    }
}

} // verus!

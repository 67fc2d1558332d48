use vstd::prelude::*;

use crate::loadtest::GooseDuration;

verus! {

/// A report format a run can produce.
#[derive(Clone, Copy, Debug, PartialEq, Eq, Structural)]
pub enum ReportFormat {
    Json,
    Csv,
    Html,
}

/// How simulated users pick their scenarios.
#[derive(Clone, Copy, Debug, PartialEq, Eq, Structural)]
pub enum SchedulerType {
    RoundRobin,
    Serial,
    Random,
}

impl Default for SchedulerType {
    fn default() -> (r: SchedulerType)
        ensures
            r == SchedulerType::RoundRobin,
    {
        SchedulerType::RoundRobin
    }
}

/// The log level of a run.
#[derive(Clone, Copy, Debug, PartialEq, Eq, Structural)]
pub enum LogLevel {
    Trace,
    Debug,
    Info,
    Warn,
    Error,
}

impl Default for LogLevel {
    fn default() -> (r: LogLevel)
        ensures
            r == LogLevel::Info,
    {
        LogLevel::Info
    }
}

/// A header sent with a request.
pub struct HeaderConfig {
    pub name: String,
    pub value: String,
}

/// A query parameter sent with a request.
pub struct QueryConfig {
    pub name: String,
    pub value: String,
}

/// One request of a transaction.
pub struct RequestConfig {
    pub method: String,
    pub path: String,
    pub headers: Vec<HeaderConfig>,
    pub query: Vec<QueryConfig>,
    pub body: Option<String>,
    pub allow_redirects: bool,
}

/// A weighted, named request.
pub struct TransactionConfig {
    pub name: String,
    pub weight: u32,
    pub request: RequestConfig,
}

/// A weighted, named list of transactions.
pub struct ScenarioConfig {
    pub name: String,
    pub transactions: Vec<TransactionConfig>,
    pub weight: u32,
}

/// Hints handed to recipe generation.
pub struct PluginHints {
    pub mistral_recipe_prompt: Option<String>,
    pub tags: Vec<String>,
}

impl Default for PluginHints {
    fn default() -> (r: PluginHints)
        ensures
            r.mistral_recipe_prompt is None,
            r.tags@.len() == 0,
    {
        PluginHints { mistral_recipe_prompt: None, tags: Vec::new() }
    }
}

/// TLS settings of the target; the CA bundle is a file path.
pub struct TlsOptions {
    pub verify: bool,
    pub ca_bundle: Option<String>,
}

impl Default for TlsOptions {
    fn default() -> (r: TlsOptions)
        ensures
            r.verify,
            r.ca_bundle is None,
    {
        TlsOptions { verify: true, ca_bundle: None }
    }
}

/// The reports a run produces.
pub struct ReportOptions {
    pub formats: Vec<ReportFormat>,
}

impl ReportOptions {
    /// JSON, CSV and HTML, in that order.
    pub fn default_formats() -> (r: Vec<ReportFormat>)
        ensures
            r@ == seq![ReportFormat::Json, ReportFormat::Csv, ReportFormat::Html],
    {
        let mut v: Vec<ReportFormat> = Vec::new();
        v.push(ReportFormat::Json);
        v.push(ReportFormat::Csv);
        v.push(ReportFormat::Html);
        assert(v@ =~= seq![ReportFormat::Json, ReportFormat::Csv, ReportFormat::Html]);
        v
    }
}

impl Default for ReportOptions {
    fn default() -> (r: ReportOptions)
        ensures
            r.formats@ == seq![ReportFormat::Json, ReportFormat::Csv, ReportFormat::Html],
    {
        ReportOptions { formats: ReportOptions::default_formats() }
    }
}

/// A load test to run.
pub struct GooseRunConfig {
    pub target_base_url: String,
    pub users: u32,
    pub hatch_rate: u32,
    pub duration: GooseDuration,
    pub think_time_seconds: u64,
    pub scenarios: Vec<ScenarioConfig>,
    pub scheduler: SchedulerType,
    pub tls: TlsOptions,
    pub reports: ReportOptions,
    pub max_history: Option<u32>,
    pub log_level: LogLevel,
    pub throughput_cap_rps: Option<u64>,
    pub plugin_hints: PluginHints,
}

/// Where run history and reports are kept (file system paths).
pub struct PersistenceConfig {
    pub database_path: String,
    pub report_dir: String,
}

/// Authentication settings of the load-test service.
pub struct SecurityConfig {
    pub require_authentication: bool,
    pub api_keys_url: Option<String>,
    pub jwt_audience: Option<String>,
    pub jwt_issuer: Option<String>,
    pub tls_required: bool,
}

impl SecurityConfig {
    /// Authentication is required unless configured otherwise.
    pub fn default_required() -> (r: bool)
        ensures
            r,
    {
        true
    }
}

impl Default for SecurityConfig {
    fn default() -> (r: SecurityConfig)
        ensures
            r.require_authentication,
            r.api_keys_url is None,
            r.jwt_audience is None,
            r.jwt_issuer is None,
            !r.tls_required,
    {
        SecurityConfig {
            require_authentication: SecurityConfig::default_required(),
            api_keys_url: None,
            jwt_audience: None,
            jwt_issuer: None,
            tls_required: false,
        }
    }
}

/// Endpoints of the plugin bus.
pub struct PluginBusConfig {
    pub mistral_endpoint: Option<String>,
    pub mistral_api_key: Option<String>,
    pub api_keys_endpoint: Option<String>,
    pub bus_channel: Option<String>,
}

impl Default for PluginBusConfig {
    fn default() -> (r: PluginBusConfig)
        ensures
            r.mistral_endpoint is None,
            r.mistral_api_key is None,
            r.api_keys_endpoint is None,
            r.bus_channel is None,
    {
        PluginBusConfig {
            mistral_endpoint: None,
            mistral_api_key: None,
            api_keys_endpoint: None,
            bus_channel: None,
        }
    }
}

} // verus!

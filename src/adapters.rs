use vstd::prelude::*;

verus! {

/// Connection settings of the DB3 adapter.
pub struct Db3AdapterConfig {
    pub base_url: String,
    pub admin_address: Option<String>,
    pub signing_key: Option<String>,
    pub timeout_secs: u64,
    pub name: String,
}

/// Why the DB3 adapter could not start.
#[derive(Debug)]
pub enum Db3Error {
    Configuration(String),
}

/// Connection settings of the PostgresML adapter.
pub struct PgmlAdapterConfig {
    pub base_url: String,
    pub api_key: Option<String>,
    pub timeout_secs: u64,
    pub name: String,
}

/// Why a PostgresML call failed.
#[derive(Debug)]
pub enum PgmlError {
    Http(String),
    Validation(String),
}

/// The request timeout of an adapter when none is configured, in seconds.
pub fn default_timeout_secs() -> (r: u64)
    ensures
        r == 30,
{
    30
}

impl Db3AdapterConfig {
    /// The adapter's name when none is configured.
    pub fn default_name() -> (r: String)
        ensures
            r@ == "db3"@,
    {
        String::from_str("db3")
    }
}

impl PgmlAdapterConfig {
    /// The adapter's name when none is configured.
    pub fn default_name() -> (r: String)
        ensures
            r@ == "pgml"@,
    {
        String::from_str("pgml")
    }
}

} // verus!

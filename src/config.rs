use vstd::prelude::*;

verus! {

/// Server settings file.
#[derive(Debug)]
pub struct ServerConfig {
    pub server: ServerSection,
}

#[derive(Debug)]
pub struct ServerSection {
    pub grpc: GrpcConfig,
    pub http: Option<HttpConfig>,
}

#[derive(Debug)]
pub struct HttpConfig {
    pub addr: String,
}

#[derive(Debug)]
pub struct GrpcConfig {
    pub addr: String,
    pub timeout: String,
}

/// Data settings file.
#[derive(Debug)]
pub struct DataConfig {
    pub data: DataSection,
}

#[derive(Debug)]
pub struct DataSection {
    pub database: DatabaseConfig,
    pub redis: Option<RedisConfig>,
}

#[derive(Debug)]
pub struct DatabaseConfig {
    pub driver: String,
    pub source: String,
    pub max_connections: u32,
}

#[derive(Debug)]
pub struct RedisConfig {
    pub addr: String,
    pub password: String,
    pub db: u8,
}

/// Logger settings file.
#[derive(Debug)]
pub struct LoggerConfig {
    pub logger: LoggerSection,
}

#[derive(Debug)]
pub struct LoggerSection {
    pub level: String,
    pub output: String,
    pub format: String,
}

/// The address the static frontend listens on when none is configured.
pub open spec fn fallback_frontend_addr() -> Seq<char> {
    "0.0.0.0:9701"@
}

impl ServerSection {
    /// The configured frontend address, or `0.0.0.0:9701` without an HTTP section.
    pub fn frontend_addr(&self) -> (r: &str)
        ensures
            r@ == match self.http {
                Some(h) => h.addr@,
                None => fallback_frontend_addr(),
            },
    {
        match &self.http {
            Some(h) => h.addr.as_str(),
            None => "0.0.0.0:9701",
        }
    }
}

impl LoggerSection {
    /// Whether log lines are written as JSON: only for the format `json`.
    pub fn wants_json(&self) -> (r: bool)
        ensures
            r == (self.format@ == "json"@),
    {
        crate::text::same_text(self.format.as_str(), "json")
    }
}

/// Request timeout used when the gRPC section names none.
pub fn default_timeout() -> (r: String)
    ensures
        r@ == "30s"@,
{
    "30s".to_string()
}

/// Database driver used when none is named.
pub fn default_driver() -> (r: String)
    ensures
        r@ == "postgresql"@,
{
    "postgresql".to_string()
}

/// Pool size used when none is named.
pub fn default_max_connections() -> (r: u32)
    ensures
        r == 20,
{
    20
}

/// Log level used when none is named.
pub fn default_level() -> (r: String)
    ensures
        r@ == "info"@,
{
    "info".to_string()
}

/// Log destination used when none is named.
pub fn default_output() -> (r: String)
    ensures
        r@ == "stdout"@,
{
    "stdout".to_string()
}

/// Log format used when none is named.
pub fn default_format() -> (r: String)
    ensures
        r@ == "json"@,
{
    "json".to_string()
}

} // verus!

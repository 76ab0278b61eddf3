//! Settings of the gateway process.
use vstd::prelude::*;

verus! {

/// Where a server listens.
#[derive(Clone, Debug, PartialEq, Eq)]
pub struct ServerConfig {
    /// The address on which the server listens.
    pub address: String,
    /// The port on which the server listens.
    pub port: u16,
}

/// How to reach the inference backend.
#[derive(Clone, Debug, PartialEq, Eq)]
pub struct MightyServerConfig {
    /// The base URL of the backend's HTTP interface. A backend that runs
    /// inside the gateway's own process has none.
    pub base_url: Option<String>,
}

/// What the process logs.
#[derive(Clone, Debug, PartialEq, Eq)]
pub struct LoggingConfig {
    /// The logging level, such as "info" or "debug".
    pub level: String,
}

/// All settings of the gateway.
#[derive(Clone, Debug, PartialEq, Eq)]
pub struct AppSettings {
    /// The RPC server.
    pub grpc_server: ServerConfig,
    /// The HTTP server, where one is run beside the RPC server.
    pub api_server: Option<ServerConfig>,
    /// The inference backend, where it is reached over HTTP.
    pub mighty_server: Option<MightyServerConfig>,
    /// Logging.
    pub logging: LoggingConfig,
}

} // verus!

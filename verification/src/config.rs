//! Service configuration and its defaults.
//!
//! Precedence when loading (later wins): defaults, then the TOML file, then the
//! shared (unprefixed) environment, then the service's prefixed environment.
//! The defaults live here, not in a committed TOML file.
use vstd::prelude::*;
use vstd::string::StringExecFns;

verus! {

/// Where the service listens by default: loopback; deployments override it.
pub const DEFAULT_BIND: &'static str = "127.0.0.1:8080";

/// The auth service's TCP endpoint by default. A name, not an IP: the TLS leg
/// verifies the certificate's hostname.
pub const DEFAULT_AUTH_TCP_ADDR: &'static str = "tcp.auth.dev.thmsn.dev:7070";

/// The fleet-shared, unprefixed environment variables every service reads.
pub const SHARED_ENV: [&'static str; 4] = ["AUTH_ADMIN_KEY", "AUTH_MODE", "OTLP_ENDPOINT", "PRODUCTION"];

/// The service's configuration.
#[derive(Debug, Clone)]
pub struct Config {
    /// Address the service listens on.
    pub bind: String,
    /// Address of the auth service's TCP endpoint.
    pub auth_tcp_addr: String,
    /// Required secret, provided by the shared environment layer, never a file.
    pub auth_admin_key: String,
    /// Where telemetry is exported, if anywhere.
    pub otlp_endpoint: Option<String>,
}

/// The default listen address, as an owned string.
pub fn default_bind() -> (bind: String)
    ensures
        bind@ == DEFAULT_BIND@,
{
    String::from_str(DEFAULT_BIND)
}

/// The default auth endpoint, as an owned string.
pub fn default_auth_tcp_addr() -> (addr: String)
    ensures
        addr@ == DEFAULT_AUTH_TCP_ADDR@,
{
    String::from_str(DEFAULT_AUTH_TCP_ADDR)
}

impl Default for Config {
    /// The lowest layer of the configuration: every field from the same
    /// default functions the loader uses, no admin key and no telemetry endpoint.
    fn default() -> (config: Self)
        ensures
            config.bind@ == DEFAULT_BIND@,
            config.auth_tcp_addr@ == DEFAULT_AUTH_TCP_ADDR@,
            config.auth_admin_key@ == Seq::<char>::empty(),
            config.otlp_endpoint is None,
    {
        Config {
            bind: default_bind(),
            auth_tcp_addr: default_auth_tcp_addr(),
            auth_admin_key: String::new(),
            otlp_endpoint: None,
        }
    }
}

} // verus!

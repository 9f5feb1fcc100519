//! Server configuration.

use vstd::prelude::*;
use vstd::string::*;
use crate::text::{decimal, parse_unsigned, parse_unsigned_exec, push_decimal};

verus! {

/// The server's configuration.
#[derive(Debug, Clone)]
pub struct Config {
    /// The address the server listens on.
    pub host: String,
    /// The port the server listens on.
    pub port: u16,
    /// The Solana RPC endpoint.
    pub solana_rpc_url: String,
    /// The path of the database file.
    pub database_path: String,
    /// The key for calls between services, if one is set.
    pub server_api_key: Option<String>,
    /// The rate limit, in requests per minute.
    pub rate_limit_rpm: u32,
}

/// The listening address used when none is configured.
pub open spec fn default_host() -> Seq<char> {
    "0.0.0.0"@
}

/// The Solana RPC endpoint used when none is configured.
pub open spec fn default_solana_rpc_url() -> Seq<char> {
    "https://api.devnet.solana.com"@
}

/// The database path used when none is configured.
pub open spec fn default_database_path() -> Seq<char> {
    "gaggle.db"@
}

/// The port used when none is configured, or the configured one is not a port number.
pub const DEFAULT_PORT: u16 = 8080;

/// The rate limit used when none is configured, or the configured one is not a number.
pub const DEFAULT_RATE_LIMIT_RPM: u32 = 120;

fn default_host_string() -> (r: String)
    ensures
        r@ == default_host(),
{
    String::from_str("0.0.0.0")
}

fn default_solana_rpc_url_string() -> (r: String)
    ensures
        r@ == default_solana_rpc_url(),
{
    String::from_str("https://api.devnet.solana.com")
}

fn default_database_path_string() -> (r: String)
    ensures
        r@ == default_database_path(),
{
    String::from_str("gaggle.db")
}

impl Default for Config {
    fn default() -> (c: Config)
        ensures
            c.host@ == default_host(),
            c.port == DEFAULT_PORT,
            c.solana_rpc_url@ == default_solana_rpc_url(),
            c.database_path@ == default_database_path(),
            c.server_api_key is None,
            c.rate_limit_rpm == DEFAULT_RATE_LIMIT_RPM,
    {
        Config {
            host: default_host_string(),
            port: DEFAULT_PORT,
            solana_rpc_url: default_solana_rpc_url_string(),
            database_path: default_database_path_string(),
            server_api_key: None,
            rate_limit_rpm: DEFAULT_RATE_LIMIT_RPM,
        }
    }
}

/// The text setting `s`, or `default` when it is not set.
pub open spec fn text_or(s: Option<Seq<char>>, default: Seq<char>) -> Seq<char> {
    match s {
        Some(v) => v,
        None => default,
    }
}

/// The number setting `s` read as an integer of at most `max`; `default`
/// when it is not set or is not such a number.
pub open spec fn number_or(s: Option<Seq<char>>, max: nat, default: nat) -> nat {
    match s {
        Some(v) => match parse_unsigned(v, max) {
            Some(n) => n,
            None => default,
        },
        None => default,
    }
}

/// The view of an optional string slice.
pub open spec fn setting(o: Option<&str>) -> Option<Seq<char>> {
    match o {
        Some(s) => Some(s@),
        None => None,
    }
}

fn text_or_exec(s: Option<&str>, default: String) -> (r: String)
    ensures
        r@ == text_or(setting(s), default@),
{
    match s {
        Some(v) => String::from_str(v),
        None => default,
    }
}

impl Config {
    /// The configuration from its settings as text, each of which may be
    /// unset: `host`, `port`, `solana_rpc_url`, `database_path`,
    /// `server_api_key` and `rate_limit_rpm`. An unset setting takes its
    /// default, and so does a port or rate limit that is not a number in range.
    pub fn from_settings(
        host: Option<&str>,
        port: Option<&str>,
        solana_rpc_url: Option<&str>,
        database_path: Option<&str>,
        server_api_key: Option<&str>,
        rate_limit_rpm: Option<&str>,
    ) -> (c: Config)
        ensures
            c.host@ == text_or(setting(host), default_host()),
            c.port == number_or(setting(port), u16::MAX as nat, DEFAULT_PORT as nat),
            c.solana_rpc_url@ == text_or(setting(solana_rpc_url), default_solana_rpc_url()),
            c.database_path@ == text_or(setting(database_path), default_database_path()),
            match server_api_key {
                Some(k) => c.server_api_key matches Some(v) && v@ == k@,
                None => c.server_api_key is None,
            },
            c.rate_limit_rpm == number_or(setting(rate_limit_rpm), u32::MAX as nat, DEFAULT_RATE_LIMIT_RPM as nat),
    {
        let port_value: u16 = match port {
            Some(p) => match parse_unsigned_exec(p, 65535) {
                Some(v) => v as u16,
                None => DEFAULT_PORT,
            },
            None => DEFAULT_PORT,
        };
        let rpm_value: u32 = match rate_limit_rpm {
            Some(p) => match parse_unsigned_exec(p, 4294967295) {
                Some(v) => v as u32,
                None => DEFAULT_RATE_LIMIT_RPM,
            },
            None => DEFAULT_RATE_LIMIT_RPM,
        };
        Config {
            host: text_or_exec(host, default_host_string()),
            port: port_value,
            solana_rpc_url: text_or_exec(solana_rpc_url, default_solana_rpc_url_string()),
            database_path: text_or_exec(database_path, default_database_path_string()),
            server_api_key: match server_api_key {
                Some(k) => Some(String::from_str(k)),
                None => None,
            },
            rate_limit_rpm: rpm_value,
        }
    }

    /// The address the server listens on, as `host:port`.
    pub fn server_addr(&self) -> (r: String)
        ensures
            r@ == self.host@ + ":"@ + decimal(self.port as nat),
    {
        let mut out = self.host.clone();
        out.append(":");
        push_decimal(&mut out, self.port as u64);
        out
    }
}

} // verus!

//! Application configuration: defaults, port parsing, and the rule that
//! a plain password and a password hash cannot both be configured. The
//! surrounding application reads the environment and hands the raw
//! values in; the decisions about them are made here.

use vstd::prelude::*;

use crate::numeric::{all_digits, dec_str, dec_val, parse_u16, u64_to_string};

verus! {

/// The configuration values as the environment provides them, each
/// absent when its variable is unset.
#[derive(Debug)]
pub struct RawConfig {
    pub server_host: Option<String>,
    pub server_port: Option<String>,
    pub port: Option<String>,
    pub server_proxy_url: Option<String>,
    pub data_dir: Option<String>,
    pub auth_username: Option<String>,
    pub auth_password: Option<String>,
    pub auth_password_hash: Option<String>,
}

/// The validated application configuration.
#[derive(Debug)]
pub struct AppConfig {
    pub server_host: String,
    pub server_port: u16,
    pub port: u16,
    pub server_proxy_url: Option<String>,
    pub data_dir: String,
    pub auth_username: Option<String>,
    pub auth_password: Option<String>,
    pub auth_password_hash: Option<String>,
}

/// Why a configuration was rejected.
#[derive(PartialEq, Eq, Structural, Clone, Copy, Debug)]
pub enum ConfigError {
    /// `SERVER_PORT` is not a port number.
    InvalidServerPort,
    /// `PORT` is not a port number.
    InvalidPort,
    /// Both a plain password and a password hash are set.
    ConflictingAuth,
}

impl ConfigError {
    /// The error's text.
    pub fn message(&self) -> (r: &'static str)
        ensures
            *self == ConfigError::InvalidServerPort ==> r@ == "SERVER_PORT is not a valid port"@,
            *self == ConfigError::InvalidPort ==> r@ == "PORT is not a valid port"@,
            *self == ConfigError::ConflictingAuth ==> r@
                == "AUTH_PASSWORD and AUTH_PASSWORD_HASH are mutually exclusive; set only one"@,
    {
        match self {
            ConfigError::InvalidServerPort => "SERVER_PORT is not a valid port",
            ConfigError::InvalidPort => "PORT is not a valid port",
            ConfigError::ConflictingAuth => "AUTH_PASSWORD and AUTH_PASSWORD_HASH are mutually exclusive; set only one",
        }
    }
}

/// True when `s` reads as a port number.
pub open spec fn valid_port(s: Seq<char>) -> bool {
    s.len() > 0 && all_digits(s) && dec_val(s) <= u16::MAX as nat
}

impl AppConfig {
    /// Validates the raw configuration: hosts and directories default
    /// when unset, ports must parse when set, and a plain password and
    /// a password hash exclude one another.
    pub fn load(raw: RawConfig) -> (r: Result<AppConfig, ConfigError>)
        ensures
            r is Ok <==> (match raw.server_port {
                Option::Some(s) => valid_port(s@),
                Option::None => true,
            } && (match raw.port {
                Option::Some(s) => valid_port(s@),
                Option::None => true,
            }) && !(raw.auth_password is Some && raw.auth_password_hash is Some)),
            r matches Ok(c) ==> {
                &&& c.server_host@ == (match raw.server_host {
                    Option::Some(h) => h@,
                    Option::None => "0.0.0.0"@,
                })
                &&& c.server_port as nat == (match raw.server_port {
                    Option::Some(s) => dec_val(s@),
                    Option::None => 6765nat,
                })
                &&& c.port as nat == (match raw.port {
                    Option::Some(s) => dec_val(s@),
                    Option::None => 6766nat,
                })
                &&& c.server_proxy_url == raw.server_proxy_url
                &&& c.data_dir@ == (match raw.data_dir {
                    Option::Some(d) => d@,
                    Option::None => "./data"@,
                })
                &&& c.auth_username == raw.auth_username
                &&& c.auth_password == raw.auth_password
                &&& c.auth_password_hash == raw.auth_password_hash
            },
            r matches Err(e) ==> (match raw.server_port {
                Option::Some(s) => !valid_port(s@) && e == ConfigError::InvalidServerPort,
                Option::None => false,
            } || (match raw.port {
                Option::Some(s) => !valid_port(s@) && e == ConfigError::InvalidPort,
                Option::None => false,
            }) || e == ConfigError::ConflictingAuth),
    {
        let server_host = match raw.server_host {
            Option::Some(h) => h,
            Option::None => "0.0.0.0".to_owned(),
        };
        let server_port: u16 = match &raw.server_port {
            Option::Some(s) => match parse_u16(s.as_str()) {
                Option::Some(p) => p,
                Option::None => {
                    return Err(ConfigError::InvalidServerPort);
                },
            },
            Option::None => 6765,
        };
        let port: u16 = match &raw.port {
            Option::Some(s) => match parse_u16(s.as_str()) {
                Option::Some(p) => p,
                Option::None => {
                    return Err(ConfigError::InvalidPort);
                },
            },
            Option::None => 6766,
        };
        if raw.auth_password.is_some() && raw.auth_password_hash.is_some() {
            return Err(ConfigError::ConflictingAuth);
        }
        let data_dir = match raw.data_dir {
            Option::Some(d) => d,
            Option::None => "./data".to_owned(),
        };
        Ok(
            AppConfig {
                server_host,
                server_port,
                port,
                server_proxy_url: raw.server_proxy_url,
                data_dir,
                auth_username: raw.auth_username,
                auth_password: raw.auth_password,
                auth_password_hash: raw.auth_password_hash,
            },
        )
    }

    /// The URL requests are proxied to: the configured one, or the
    /// loopback address at the companion port.
    pub fn proxy_url(&self) -> (r: String)
        ensures
            match self.server_proxy_url {
                Option::Some(u) => r@ == u@,
                Option::None => r@ == "http://127.0.0.1:"@ + dec_str(self.port as nat),
            },
    {
        match &self.server_proxy_url {
            Option::Some(u) => u.clone(),
            Option::None => {
                let mut r = String::new();
                r.append("http://127.0.0.1:");
                let p = u64_to_string(self.port as u64);
                r.append(p.as_str());
                r
            },
        }
    }
}

} // verus!

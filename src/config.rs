use vstd::prelude::*;
use vstd::string::StringExecFns;

use crate::text::{digits_value, is_digit};

verus! {

/// The environment the application runs in.
#[derive(Clone, Copy, Debug, PartialEq, Eq, Structural)]
pub enum AppEnv {
    Dev,
    Prod,
}

/// How much the application logs.
#[derive(Clone, Copy, Debug, PartialEq, Eq, Structural)]
pub enum LogLevel {
    Debug,
    Info,
}

/// Why the settings do not make a configuration.
#[derive(Clone, Copy, Debug, PartialEq, Eq, Structural)]
pub enum ConfigError {
    /// No database URL was given.
    MissingDatabaseUrl,
    /// The port is not a number from 0 to 65535.
    InvalidPort,
}

pub const DEFAULT_HOST: &'static str = "127.0.0.1";

pub const DEFAULT_PORT: &'static str = "8000";

pub const PROD_ENV: &'static str = "prod";

/// The value of a port setting as `u16`'s parser reads it: an optional `+`
/// followed by one or more decimal digits, at most 65535.
pub open spec fn port_value(s: Seq<char>) -> Option<u16> {
    let d = if s.len() > 0 && s[0] == '+' {
        s.drop_first()
    } else {
        s
    };
    if d.len() > 0 && (forall|i: int| 0 <= i < d.len() ==> is_digit(#[trigger] d[i])) && digits_value(d)
        <= 65535 {
        Some(digits_value(d) as u16)
    } else {
        None
    }
}

/// Relies on `str::parse::<u16>`, documented to accept an optional `+` followed
/// by decimal digits only, and to fail on any other text or a value above `u16::MAX`.
#[verifier::external_body]
fn parse_port(s: &str) -> (r: Option<u16>)
    ensures
        r == port_value(s@),
{
    s.parse::<u16>().ok()
}

/// The settings an application is started with.
#[derive(Debug, PartialEq, Eq)]
pub struct AppOptions {
    pub db_url: String,
    pub host: String,
    pub port: u16,
    pub env: AppEnv,
    pub log_level: LogLevel,
}

impl AppOptions {
    /// Builds the options from the values of the settings `DATABASE_URL`,
    /// `HOST`, `PORT` and `APP_ENV` (`None` for one that is not set).
    /// The host defaults to `127.0.0.1` and the port to `8000`; the environment
    /// `prod` logs at level info, any other at level debug.
    pub fn new_from_envs(
        db_url: Option<String>,
        host: Option<String>,
        port: Option<String>,
        app_env: Option<String>,
    ) -> (r: Result<AppOptions, ConfigError>)
        ensures
            db_url is None ==> r == Err::<AppOptions, ConfigError>(ConfigError::MissingDatabaseUrl),
            ({
                let port_text = match port {
                    Some(p) => p@,
                    None => DEFAULT_PORT@,
                };
                db_url is Some ==> match port_value(port_text) {
                    None => r == Err::<AppOptions, ConfigError>(ConfigError::InvalidPort),
                    Some(n) => r matches Ok(o) && {
                        let prod = app_env matches Some(e) && e@ == PROD_ENV@;
                        &&& o.db_url@ == db_url->Some_0@
                        &&& o.host@ == (match host {
                            Some(h) => h@,
                            None => DEFAULT_HOST@,
                        })
                        &&& o.port == n
                        &&& o.env == (if prod {
                            AppEnv::Prod
                        } else {
                            AppEnv::Dev
                        })
                        &&& o.log_level == (if prod {
                            LogLevel::Info
                        } else {
                            LogLevel::Debug
                        })
                    },
                }
            }),
    {
        let db_url = match db_url {
            Some(url) => url,
            None => return Err(ConfigError::MissingDatabaseUrl),
        };
        let host = match host {
            Some(h) => h,
            None => String::from_str(DEFAULT_HOST),
        };
        let port_text = match port {
            Some(p) => p,
            None => String::from_str(DEFAULT_PORT),
        };
        let port = match parse_port(port_text.as_str()) {
            Some(n) => n,
            None => return Err(ConfigError::InvalidPort),
        };
        let prod = match &app_env {
            Some(e) => *e == String::from_str(PROD_ENV),
            None => false,
        };
        let (env, log_level) = if prod {
            (AppEnv::Prod, LogLevel::Info)
        } else {
            (AppEnv::Dev, LogLevel::Debug)
        };
        Ok(AppOptions { db_url, host, port, env, log_level })
    }
}

} // verus!

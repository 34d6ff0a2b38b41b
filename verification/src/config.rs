//! The exporter's settings: the HTTP port, the seconds between speedtests and an
//! optional pinned Ookla server, read from the values of the `PORT`,
//! `SPEEDTEST_INTERVAL_SECS` and `SPEEDTEST_SERVER_ID` environment variables.
use vstd::prelude::*;

use crate::decimal::{decimal, parse_u16, parse_u64, parse_unsigned, u64_to_decimal};
use crate::opt_view;

verus! {

/// Port used when `PORT` is not set.
pub const DEFAULT_PORT: u16 = 9798;

/// Seconds between speedtests when `SPEEDTEST_INTERVAL_SECS` is not set.
pub const DEFAULT_INTERVAL_SECS: u64 = 300;

/// The shortest interval between speedtests that is accepted.
pub const MIN_INTERVAL_SECS: u64 = 30;

/// Why the settings were refused.
#[derive(Debug)]
pub enum ConfigError {
    /// `PORT` is not a valid `u16`.
    InvalidPort(String),
    /// `SPEEDTEST_INTERVAL_SECS` is not a number, or is below the minimum.
    InvalidInterval(String),
}

impl ConfigError {
    /// The human-readable description of the error.
    pub open spec fn message(&self) -> Seq<char> {
        match self {
            ConfigError::InvalidPort(v) => "invalid PORT value: "@ + v@,
            ConfigError::InvalidInterval(v) => "invalid SPEEDTEST_INTERVAL_SECS value: "@ + v@
                + " (minimum: "@ + decimal(MIN_INTERVAL_SECS as nat) + "s)"@,
        }
    }

    /// Writes the human-readable description of the error.
    pub fn to_string(&self) -> (r: String)
        ensures
            r@ == self.message(),
    {
        match self {
            ConfigError::InvalidPort(v) => String::from_str("invalid PORT value: ").concat(
                v.as_str(),
            ),
            ConfigError::InvalidInterval(v) => {
                let minimum = u64_to_decimal(MIN_INTERVAL_SECS);
                String::from_str("invalid SPEEDTEST_INTERVAL_SECS value: ").concat(
                    v.as_str(),
                ).concat(" (minimum: ").concat(minimum.as_str()).concat("s)")
            },
        }
    }
}

/// The exporter's settings.
#[derive(Debug, Clone)]
pub struct Config {
    pub port: u16,
    pub interval_secs: u64,
    pub server_id: Option<String>,
}

/// The port that the value of `PORT` selects, if it is valid: the default when unset.
pub open spec fn port_setting(port: Option<Seq<char>>) -> Option<nat> {
    match port {
        Some(s) => parse_unsigned(s, u16::MAX as nat),
        None => Some(DEFAULT_PORT as nat),
    }
}

/// The interval that the value of `SPEEDTEST_INTERVAL_SECS` selects, if it is a number:
/// the default when unset.
pub open spec fn interval_setting(interval: Option<Seq<char>>) -> Option<nat> {
    match interval {
        Some(s) => parse_unsigned(s, u64::MAX as nat),
        None => Some(DEFAULT_INTERVAL_SECS as nat),
    }
}

/// The settings are accepted: the port is valid and the interval is a number no smaller
/// than the minimum.
pub open spec fn settings_valid(port: Option<Seq<char>>, interval: Option<Seq<char>>) -> bool {
    &&& port_setting(port) is Some
    &&& interval_setting(interval) is Some
    &&& interval_setting(interval)->0 >= MIN_INTERVAL_SECS
}

impl Config {
    /// Builds the settings from the values of `PORT`, `SPEEDTEST_INTERVAL_SECS` and
    /// `SPEEDTEST_SERVER_ID` (`None` for a variable that is not set). The port is checked
    /// first, then the interval.
    pub fn new(port: Option<String>, interval_secs: Option<String>, server_id: Option<String>) -> (r:
        Result<Config, ConfigError>)
        ensures
            r is Ok <==> settings_valid(opt_view(port), opt_view(interval_secs)),
            r matches Ok(c) ==> {
                &&& c.port as nat == port_setting(opt_view(port))->0
                &&& c.interval_secs as nat == interval_setting(opt_view(interval_secs))->0
                &&& c.interval_secs >= MIN_INTERVAL_SECS
                &&& c.server_id == server_id
            },
            port_setting(opt_view(port)) is None ==> (r matches Err(ConfigError::InvalidPort(m))
                && m@ == "not a valid u16"@),
            port_setting(opt_view(port)) is Some && interval_setting(opt_view(interval_secs)) is None
                ==> (r matches Err(ConfigError::InvalidInterval(m)) && m@ == opt_view(
                interval_secs,
            )->0),
            port_setting(opt_view(port)) is Some ==> (interval_setting(opt_view(interval_secs))
                matches Some(n) ==> (n < MIN_INTERVAL_SECS ==> (r matches Err(
                ConfigError::InvalidInterval(m),
            ) && m@ == decimal(n)))),
    {
        let port_value: u16 = match &port {
            Some(text) => match parse_u16(text.as_str()) {
                Some(p) => p,
                None => {
                    return Err(ConfigError::InvalidPort(String::from_str("not a valid u16")));
                },
            },
            None => DEFAULT_PORT,
        };
        let interval_value: u64 = match &interval_secs {
            Some(text) => match parse_u64(text.as_str()) {
                Some(v) => v,
                None => {
                    return Err(ConfigError::InvalidInterval(text.clone()));
                },
            },
            None => DEFAULT_INTERVAL_SECS,
        };
        if interval_value < MIN_INTERVAL_SECS {
            return Err(ConfigError::InvalidInterval(u64_to_decimal(interval_value)));
        }
        Ok(Config { port: port_value, interval_secs: interval_value, server_id })
    }
}

} // verus!

//! Runtime configuration of the signaling service: defaults and parsing of
//! the optional environment values. Reading the environment itself is the
//! surrounding application's job.

use crate::json::{dec_rep, is_dec_i64, is_dec_u64, parse_i64, parse_u64, push_dec_u64};
use vstd::prelude::*;

verus! {

/// Runtime configuration of the signaling service.
#[derive(Debug)]
pub struct Config {
    pub host: String,
    pub port: u16,
    pub log_level: String,
    pub room_ttl_seconds: i64,
    pub cleanup_interval_seconds: u64,
}

/// The given value, or the default where none was given.
pub open spec fn str_or(o: Option<String>, default: Seq<char>) -> Seq<char> {
    match o {
        Some(s) => s@,
        None => default,
    }
}

/// The port value is absent or a decimal number that fits a `u16`.
pub open spec fn port_ok(o: Option<String>) -> bool {
    match o {
        None => true,
        Some(p) => exists|v: u64| is_dec_u64(p@, v) && v <= 65535,
    }
}

/// The time-to-live value is absent or a decimal `i64`.
pub open spec fn ttl_ok(o: Option<String>) -> bool {
    match o {
        None => true,
        Some(p) => exists|v: i64| is_dec_i64(p@, v),
    }
}

/// The cleanup-interval value is absent or a decimal `u64`.
pub open spec fn cleanup_ok(o: Option<String>) -> bool {
    match o {
        None => true,
        Some(p) => exists|v: u64| is_dec_u64(p@, v),
    }
}

impl Config {
    /// Builds the configuration from the optional environment values:
    /// `HOST` defaults to `0.0.0.0`, `PORT` to 3001, `RUST_LOG` to `info`,
    /// `ROOM_TTL_SECONDS` to 7200 and `CLEANUP_INTERVAL_SECONDS` to 300.
    /// Fails exactly when a given numeric value does not parse.
    pub fn from_values(
        host: Option<String>,
        port: Option<String>,
        log_level: Option<String>,
        room_ttl_seconds: Option<String>,
        cleanup_interval_seconds: Option<String>,
    ) -> (r: Result<Config, String>)
        ensures
            r is Ok <==> port_ok(port) && ttl_ok(room_ttl_seconds) && cleanup_ok(
                cleanup_interval_seconds,
            ),
            r matches Ok(c) ==> {
                &&& c.host@ == str_or(host, "0.0.0.0"@)
                &&& c.log_level@ == str_or(log_level, "info"@)
                &&& (port matches Some(p) ==> is_dec_u64(p@, c.port as u64))
                &&& (port is None ==> c.port == 3001)
                &&& (room_ttl_seconds matches Some(p) ==> is_dec_i64(p@, c.room_ttl_seconds))
                &&& (room_ttl_seconds is None ==> c.room_ttl_seconds == 7200)
                &&& (cleanup_interval_seconds matches Some(p) ==> is_dec_u64(
                    p@,
                    c.cleanup_interval_seconds,
                ))
                &&& (cleanup_interval_seconds is None ==> c.cleanup_interval_seconds == 300)
            },
            r matches Err(e) ==> e@ == (if !port_ok(port) {
                "invalid PORT"@
            } else if !ttl_ok(room_ttl_seconds) {
                "invalid ROOM_TTL_SECONDS"@
            } else {
                "invalid CLEANUP_INTERVAL_SECONDS"@
            }),
    {
        let port_v: u16 = match &port {
            Some(p) => match parse_u64(p.as_str()) {
                Some(v) => {
                    if v <= 65535 {
                        v as u16
                    } else {
                        return Err("invalid PORT".to_owned());
                    }
                },
                None => {
                    return Err("invalid PORT".to_owned());
                },
            },
            None => 3001,
        };
        let ttl_v: i64 = match &room_ttl_seconds {
            Some(p) => match parse_i64(p.as_str()) {
                Some(v) => v,
                None => {
                    return Err("invalid ROOM_TTL_SECONDS".to_owned());
                },
            },
            None => 7200,
        };
        let cleanup_v: u64 = match &cleanup_interval_seconds {
            Some(p) => match parse_u64(p.as_str()) {
                Some(v) => v,
                None => {
                    return Err("invalid CLEANUP_INTERVAL_SECONDS".to_owned());
                },
            },
            None => 300,
        };
        let host_v: String = match host {
            Some(h) => h,
            None => "0.0.0.0".to_owned(),
        };
        let log_v: String = match log_level {
            Some(l) => l,
            None => "info".to_owned(),
        };
        Ok(
            Config {
                host: host_v,
                port: port_v,
                log_level: log_v,
                room_ttl_seconds: ttl_v,
                cleanup_interval_seconds: cleanup_v,
            },
        )
    }

    /// The `host:port` listen address as text.
    pub fn addr(&self) -> (r: String)
        ensures
            r@ == self.host@ + ":"@ + dec_rep(self.port as nat),
    {
        let mut out = self.host.clone();
        out.append(":");
        push_dec_u64(&mut out, self.port as u64);
        out
    }
}

} // verus!

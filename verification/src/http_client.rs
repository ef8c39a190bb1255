//! HTTP client settings: proxy configuration and layered timeouts.

use vstd::prelude::*;

use crate::settings::{parse_u64, parsed_unsigned};

verus! {

/// Proxy configuration.
#[derive(Debug, Clone, Default, PartialEq, Eq, Hash)]
pub struct ProxyConfig {
    /// Proxy address, http/https/socks5.
    pub url: String,
    /// Proxy user name.
    pub username: Option<String>,
    /// Proxy password.
    pub password: Option<String>,
}

impl ProxyConfig {
    /// A proxy configuration for `url`, without credentials.
    pub fn new(url: &str) -> (res: Self)
        ensures
            res.url@ == url@,
            res.username is None,
            res.password is None,
    {
        ProxyConfig { url: url.to_owned(), username: None, password: None }
    }

    /// The same configuration with credentials.
    pub fn with_auth(self, username: &str, password: &str) -> (res: Self)
        ensures
            res.url == self.url,
            res.username is Some && res.username->0@ == username@,
            res.password is Some && res.password->0@ == password@,
    {
        ProxyConfig { username: Some(username.to_owned()), password: Some(password.to_owned()), ..self }
    }
}

/// The credentials for proxy basic authentication: present only when both the user name and
/// the password are set.
pub fn proxy_basic_auth(config: &ProxyConfig) -> (res: Option<(&String, &String)>)
    ensures
        match (config.username, config.password) {
            (Some(u), Some(p)) => res matches Some((a, b)) && *a == u && *b == p,
            _ => res is None,
        },
{
    match (&config.username, &config.password) {
        (Some(u), Some(p)) => Some((u, p)),
        _ => None,
    }
}

/// A duration in seconds from its raw setting: a positive `u64`, else `default`.
pub open spec fn secs_setting(value: Option<Seq<char>>, default: u64) -> u64 {
    match value {
        Some(v) => match parsed_unsigned(v, u64::MAX as nat) {
            Some(n) => if n > 0 { n as u64 } else { default },
            None => default,
        },
        None => default,
    }
}

/// A duration in seconds from its raw setting; an absent, unparsable or zero value gives
/// `default`.
pub fn secs_from_setting(value: Option<&str>, default: u64) -> (res: u64)
    ensures
        res == secs_setting(
            match value {
                Some(v) => Some(v@),
                None => None,
            },
            default,
        ),
{
    match value {
        Some(v) => match parse_u64(v) {
            Some(n) => if n > 0 { n } else { default },
            None => default,
        },
        None => default,
    }
}

/// Default connect timeout (TCP and TLS set-up only), seconds.
pub const DEFAULT_CONNECT_TIMEOUT_SECS: u64 = 15;
/// Default timeout of one read, reset by every successful read, seconds.
pub const DEFAULT_READ_TIMEOUT_SECS: u64 = 300;
/// Default TCP keep-alive interval, seconds.
pub const DEFAULT_TCP_KEEPALIVE_SECS: u64 = 60;
/// Default idle timeout of pooled connections, seconds; below the upstream's idle close.
pub const DEFAULT_POOL_IDLE_TIMEOUT_SECS: u64 = 15;
/// Idle connections kept per host.
pub const POOL_MAX_IDLE_PER_HOST: usize = 8;

/// The layered timeouts of the HTTP client.
#[derive(Debug, Clone, Copy, PartialEq, Eq, Structural)]
pub struct HttpTimeouts {
    pub connect_secs: u64,
    pub read_secs: u64,
    pub keepalive_secs: u64,
    pub pool_idle_secs: u64,
}

impl HttpTimeouts {
    /// The timeouts given their raw settings, each falling back to its default.
    pub fn from_settings(
        connect: Option<&str>,
        read: Option<&str>,
        keepalive: Option<&str>,
        pool_idle: Option<&str>,
    ) -> (res: Self)
        ensures
            res.connect_secs == secs_setting(
                match connect {
                    Some(v) => Some(v@),
                    None => None,
                },
                DEFAULT_CONNECT_TIMEOUT_SECS,
            ),
            res.read_secs == secs_setting(
                match read {
                    Some(v) => Some(v@),
                    None => None,
                },
                DEFAULT_READ_TIMEOUT_SECS,
            ),
            res.keepalive_secs == secs_setting(
                match keepalive {
                    Some(v) => Some(v@),
                    None => None,
                },
                DEFAULT_TCP_KEEPALIVE_SECS,
            ),
            res.pool_idle_secs == secs_setting(
                match pool_idle {
                    Some(v) => Some(v@),
                    None => None,
                },
                DEFAULT_POOL_IDLE_TIMEOUT_SECS,
            ),
    {
        HttpTimeouts {
            connect_secs: secs_from_setting(connect, DEFAULT_CONNECT_TIMEOUT_SECS),
            read_secs: secs_from_setting(read, DEFAULT_READ_TIMEOUT_SECS),
            keepalive_secs: secs_from_setting(keepalive, DEFAULT_TCP_KEEPALIVE_SECS),
            pool_idle_secs: secs_from_setting(pool_idle, DEFAULT_POOL_IDLE_TIMEOUT_SECS),
        }
    }
}

} // verus!

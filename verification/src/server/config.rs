//! Server settings from the environment.

use vstd::prelude::*;
use crate::env::{env_or, env_or_spec, is_true};
use crate::text::{chars_of, parse_u64, parse_u64_spec};

verus! {

pub struct Config {
    pub listen_addr: String,
    pub clickhouse_url: String,
    pub clickhouse_database: String,
    pub clickhouse_user: String,
    pub clickhouse_password: String,
    pub sync_enabled: bool,
    pub sync_interval_secs: u64,
    /// HTTP Basic Auth for the UI + API. Enabled when a username is set.
    pub auth_username: String,
    pub auth_password: String,
}

/// Why the settings are refused.
#[derive(Clone, Copy, Debug, PartialEq, Eq, Structural)]
pub enum ConfigError {
    /// `EKOKUBE_SYNC_INTERVAL_SECS` is not an unsigned integer.
    SyncIntervalNotAnInteger,
}

impl ConfigError {
    pub fn message(&self) -> (r: String)
        ensures
            r@ == match *self {
                ConfigError::SyncIntervalNotAnInteger => "EKOKUBE_SYNC_INTERVAL_SECS must be an integer"@,
            },
    {
        match self {
            ConfigError::SyncIntervalNotAnInteger => String::from_str(
                "EKOKUBE_SYNC_INTERVAL_SECS must be an integer",
            ),
        }
    }
}

impl Config {
    /// Reads the settings from the environment variables `vars` (name, value):
    /// each setting has a default; the sync interval must be an integer.
    pub fn from_env(vars: &[(String, String)]) -> (r: Result<Config, ConfigError>)
        ensures
            parse_u64_spec(env_or_spec(vars@, "EKOKUBE_SYNC_INTERVAL_SECS"@, "60"@)) is None ==> r
                == Err::<Config, ConfigError>(ConfigError::SyncIntervalNotAnInteger),
            parse_u64_spec(env_or_spec(vars@, "EKOKUBE_SYNC_INTERVAL_SECS"@, "60"@)) matches Some(
                secs,
            ) ==> (r matches Ok(c) && c.sync_interval_secs == secs && c.listen_addr@
                == env_or_spec(vars@, "EKOKUBE_LISTEN_ADDR"@, "0.0.0.0:8080"@) && c.clickhouse_url@
                == env_or_spec(vars@, "EKOKUBE_CLICKHOUSE_URL"@, "http://localhost:8123"@)
                && c.clickhouse_database@ == env_or_spec(
                vars@,
                "EKOKUBE_CLICKHOUSE_DATABASE"@,
                "ekokube"@,
            ) && c.clickhouse_user@ == env_or_spec(vars@, "EKOKUBE_CLICKHOUSE_USER"@, "default"@)
                && c.clickhouse_password@ == env_or_spec(
                vars@,
                "EKOKUBE_CLICKHOUSE_PASSWORD"@,
                ""@,
            ) && c.sync_enabled == (env_or_spec(vars@, "EKOKUBE_SYNC_ENABLED"@, "true"@)
                == "true"@) && c.auth_username@ == env_or_spec(
                vars@,
                "EKOKUBE_AUTH_USERNAME"@,
                ""@,
            ) && c.auth_password@ == env_or_spec(vars@, "EKOKUBE_AUTH_PASSWORD"@, ""@)),
    {
        let listen_addr = env_or(vars, "EKOKUBE_LISTEN_ADDR", "0.0.0.0:8080");
        let clickhouse_url = env_or(vars, "EKOKUBE_CLICKHOUSE_URL", "http://localhost:8123");
        let clickhouse_database = env_or(vars, "EKOKUBE_CLICKHOUSE_DATABASE", "ekokube");
        let clickhouse_user = env_or(vars, "EKOKUBE_CLICKHOUSE_USER", "default");
        let clickhouse_password = env_or(vars, "EKOKUBE_CLICKHOUSE_PASSWORD", "");
        let sync_enabled = is_true(&env_or(vars, "EKOKUBE_SYNC_ENABLED", "true"));
        let interval = env_or(vars, "EKOKUBE_SYNC_INTERVAL_SECS", "60");
        let sync_interval_secs = match parse_u64(&chars_of(interval.as_str())) {
            Some(v) => v,
            None => {
                return Err(ConfigError::SyncIntervalNotAnInteger);
            },
        };
        let auth_username = env_or(vars, "EKOKUBE_AUTH_USERNAME", "");
        let auth_password = env_or(vars, "EKOKUBE_AUTH_PASSWORD", "");
        Ok(Config {
            listen_addr,
            clickhouse_url,
            clickhouse_database,
            clickhouse_user,
            clickhouse_password,
            sync_enabled,
            sync_interval_secs,
            auth_username,
            auth_password,
        })
    }
}

} // verus!

//! Agent settings from the environment.

use vstd::prelude::*;
use crate::env::{env_lookup, env_or, env_or_spec, env_var, is_true};
use crate::text::{chars_of, parse_u64, parse_u64_spec, parse_usize, parse_usize_spec};

verus! {

pub const DEFAULT_TOKEN_PATH: &'static str = "/var/run/secrets/kubernetes.io/serviceaccount/token";

pub struct Config {
    pub node_name: String,
    pub interval_secs: u64,
    pub meta_interval_secs: u64,
    pub cgroup_root: String,
    pub kubelet_url: String,
    pub kubelet_token_path: String,
    pub kubelet_insecure_tls: bool,
    pub clickhouse_url: String,
    pub clickhouse_database: String,
    pub clickhouse_user: String,
    pub clickhouse_password: String,
    pub metrics_addr: String,
    pub buffer_max_rows: usize,
}

/// Why the settings are refused.
#[derive(Clone, Copy, Debug, PartialEq, Eq, Structural)]
pub enum ConfigError {
    /// Neither `EKOKUBE_NODE_NAME` nor `HOSTNAME` is set.
    MissingNodeName,
    /// `EKOKUBE_INTERVAL_SECS` is not an unsigned integer.
    IntervalNotAnInteger,
    /// `EKOKUBE_META_INTERVAL_SECS` is not an unsigned integer.
    MetaIntervalNotAnInteger,
    /// `EKOKUBE_BUFFER_MAX_ROWS` is not an unsigned integer.
    BufferMaxRowsNotAnInteger,
}

impl ConfigError {
    pub fn message(&self) -> (r: String)
        ensures
            r@ == match *self {
                ConfigError::MissingNodeName => "EKOKUBE_NODE_NAME (or HOSTNAME) must be set"@,
                ConfigError::IntervalNotAnInteger => "EKOKUBE_INTERVAL_SECS must be an integer"@,
                ConfigError::MetaIntervalNotAnInteger => "EKOKUBE_META_INTERVAL_SECS must be an integer"@,
                ConfigError::BufferMaxRowsNotAnInteger => "EKOKUBE_BUFFER_MAX_ROWS must be an integer"@,
            },
    {
        match self {
            ConfigError::MissingNodeName => String::from_str(
                "EKOKUBE_NODE_NAME (or HOSTNAME) must be set",
            ),
            ConfigError::IntervalNotAnInteger => String::from_str(
                "EKOKUBE_INTERVAL_SECS must be an integer",
            ),
            ConfigError::MetaIntervalNotAnInteger => String::from_str(
                "EKOKUBE_META_INTERVAL_SECS must be an integer",
            ),
            ConfigError::BufferMaxRowsNotAnInteger => String::from_str(
                "EKOKUBE_BUFFER_MAX_ROWS must be an integer",
            ),
        }
    }
}

/// The node name: `EKOKUBE_NODE_NAME`, else `HOSTNAME`.
pub open spec fn node_name_spec(vars: Seq<(String, String)>) -> Option<Seq<char>> {
    match env_lookup(vars, "EKOKUBE_NODE_NAME"@) {
        Some(n) => Some(n),
        None => env_lookup(vars, "HOSTNAME"@),
    }
}

/// The first error, in the order the settings are read, if any.
pub open spec fn config_error_spec(vars: Seq<(String, String)>) -> Option<ConfigError> {
    if node_name_spec(vars) is None {
        Some(ConfigError::MissingNodeName)
    } else if parse_u64_spec(env_or_spec(vars, "EKOKUBE_INTERVAL_SECS"@, "15"@)) is None {
        Some(ConfigError::IntervalNotAnInteger)
    } else if parse_u64_spec(env_or_spec(vars, "EKOKUBE_META_INTERVAL_SECS"@, "30"@)) is None {
        Some(ConfigError::MetaIntervalNotAnInteger)
    } else if parse_usize_spec(env_or_spec(vars, "EKOKUBE_BUFFER_MAX_ROWS"@, "250000"@)) is None {
        Some(ConfigError::BufferMaxRowsNotAnInteger)
    } else {
        None
    }
}

/// The settings read from `vars` when they are valid.
pub open spec fn config_matches(c: Config, vars: Seq<(String, String)>) -> bool {
    &&& Some(c.node_name@) == node_name_spec(vars)
    &&& Some(c.interval_secs) == parse_u64_spec(env_or_spec(vars, "EKOKUBE_INTERVAL_SECS"@, "15"@))
    &&& Some(c.meta_interval_secs) == parse_u64_spec(
        env_or_spec(vars, "EKOKUBE_META_INTERVAL_SECS"@, "30"@),
    )
    &&& c.cgroup_root@ == env_or_spec(vars, "EKOKUBE_CGROUP_ROOT"@, "/sys/fs/cgroup"@)
    &&& c.kubelet_url@ == env_or_spec(vars, "EKOKUBE_KUBELET_URL"@, "https://127.0.0.1:10250"@)
    &&& c.kubelet_token_path@ == env_or_spec(
        vars,
        "EKOKUBE_KUBELET_TOKEN_PATH"@,
        DEFAULT_TOKEN_PATH@,
    )
    &&& c.kubelet_insecure_tls == (env_or_spec(vars, "EKOKUBE_KUBELET_INSECURE_TLS"@, "true"@)
        == "true"@)
    &&& c.clickhouse_url@ == env_or_spec(vars, "EKOKUBE_CLICKHOUSE_URL"@, "http://localhost:8123"@)
    &&& c.clickhouse_database@ == env_or_spec(vars, "EKOKUBE_CLICKHOUSE_DATABASE"@, "ekokube"@)
    &&& c.clickhouse_user@ == env_or_spec(vars, "EKOKUBE_CLICKHOUSE_USER"@, "default"@)
    &&& c.clickhouse_password@ == env_or_spec(vars, "EKOKUBE_CLICKHOUSE_PASSWORD"@, ""@)
    &&& c.metrics_addr@ == env_or_spec(vars, "EKOKUBE_METRICS_ADDR"@, "0.0.0.0:9090"@)
    &&& Some(c.buffer_max_rows) == parse_usize_spec(
        env_or_spec(vars, "EKOKUBE_BUFFER_MAX_ROWS"@, "250000"@),
    )
}

impl Config {
    /// Reads the settings from the environment variables `vars` (name, value).
    pub fn from_env(vars: &[(String, String)]) -> (r: Result<Config, ConfigError>)
        ensures
            match config_error_spec(vars@) {
                Some(e) => r == Err::<Config, ConfigError>(e),
                None => r matches Ok(c) && config_matches(c, vars@),
            },
    {
        let node_name = match env_var(vars, "EKOKUBE_NODE_NAME") {
            Some(n) => n,
            None => match env_var(vars, "HOSTNAME") {
                Some(n) => n,
                None => {
                    return Err(ConfigError::MissingNodeName);
                },
            },
        };
        let interval = env_or(vars, "EKOKUBE_INTERVAL_SECS", "15");
        let interval_secs = match parse_u64(&chars_of(interval.as_str())) {
            Some(v) => v,
            None => {
                return Err(ConfigError::IntervalNotAnInteger);
            },
        };
        let meta = env_or(vars, "EKOKUBE_META_INTERVAL_SECS", "30");
        let meta_interval_secs = match parse_u64(&chars_of(meta.as_str())) {
            Some(v) => v,
            None => {
                return Err(ConfigError::MetaIntervalNotAnInteger);
            },
        };
        let cgroup_root = env_or(vars, "EKOKUBE_CGROUP_ROOT", "/sys/fs/cgroup");
        let kubelet_url = env_or(vars, "EKOKUBE_KUBELET_URL", "https://127.0.0.1:10250");
        let kubelet_token_path = env_or(vars, "EKOKUBE_KUBELET_TOKEN_PATH", DEFAULT_TOKEN_PATH);
        let kubelet_insecure_tls = is_true(&env_or(vars, "EKOKUBE_KUBELET_INSECURE_TLS", "true"));
        let clickhouse_url = env_or(vars, "EKOKUBE_CLICKHOUSE_URL", "http://localhost:8123");
        let clickhouse_database = env_or(vars, "EKOKUBE_CLICKHOUSE_DATABASE", "ekokube");
        let clickhouse_user = env_or(vars, "EKOKUBE_CLICKHOUSE_USER", "default");
        let clickhouse_password = env_or(vars, "EKOKUBE_CLICKHOUSE_PASSWORD", "");
        let metrics_addr = env_or(vars, "EKOKUBE_METRICS_ADDR", "0.0.0.0:9090");
        let rows = env_or(vars, "EKOKUBE_BUFFER_MAX_ROWS", "250000");
        let buffer_max_rows = match parse_usize(&chars_of(rows.as_str())) {
            Some(v) => v,
            None => {
                return Err(ConfigError::BufferMaxRowsNotAnInteger);
            },
        };
        Ok(Config {
            node_name,
            interval_secs,
            meta_interval_secs,
            cgroup_root,
            kubelet_url,
            kubelet_token_path,
            kubelet_insecure_tls,
            clickhouse_url,
            clickhouse_database,
            clickhouse_user,
            clickhouse_password,
            metrics_addr,
            buffer_max_rows,
        })
    }
}

} // verus!

//! The server's own settings: defaults, the configuration files it looks
//! for, and the environment variables that override them.
//!
//! The caller reads the file (TOML) and the environment; what wins is
//! decided here: an environment variable over the file, the file over the
//! defaults.

use vstd::prelude::*;
use crate::text::{chars_of, parse_u32_chars, parse_unsigned};

verus! {

/// The server's settings.
#[derive(Debug, Clone)]
pub struct ServerConfig {
    /// HTTP address to listen on.
    pub listen_addr: String,
    /// SQLite database URL.
    pub database_url: String,
    /// Directory of the web-admin files.
    pub web_admin_dir: String,
    /// Log level.
    pub log_level: String,
    /// Pool of the clients' mapped segments.
    pub client_pool_cidr: String,
    /// Prefix length of one mapped segment.
    pub segment_size: u32,
    /// Pool of the operators' addresses.
    pub operator_pool_cidr: String,
    /// The server's own virtual address.
    pub server_virtual_ip: String,
    /// Address the tunnel relay listens on.
    pub tunnel_addr: String,
}

/// The values of the `NETTOOL_*` environment variables that are set.
#[derive(Debug, Clone)]
pub struct EnvOverrides {
    /// `NETTOOL_LISTEN_ADDR`
    pub listen_addr: Option<String>,
    /// `NETTOOL_DATABASE_URL`
    pub database_url: Option<String>,
    /// `NETTOOL_WEB_ADMIN_DIR`
    pub web_admin_dir: Option<String>,
    /// `NETTOOL_LOG_LEVEL`
    pub log_level: Option<String>,
    /// `NETTOOL_CLIENT_POOL_CIDR`
    pub client_pool_cidr: Option<String>,
    /// `NETTOOL_SEGMENT_SIZE`
    pub segment_size: Option<String>,
    /// `NETTOOL_OPERATOR_POOL_CIDR`
    pub operator_pool_cidr: Option<String>,
    /// `NETTOOL_SERVER_VIRTUAL_IP`
    pub server_virtual_ip: Option<String>,
    /// `NETTOOL_TUNNEL_ADDR`
    pub tunnel_addr: Option<String>,
}

/// The texts of the default settings, field by field.
pub open spec fn is_default(c: ServerConfig) -> bool {
    &&& c.listen_addr@ == "0.0.0.0:8443"@
    &&& c.database_url@ == "sqlite://data/nettool.db?mode=rwc"@
    &&& c.web_admin_dir@ == "./web-admin"@
    &&& c.log_level@ == "info"@
    &&& c.client_pool_cidr@ == "100.64.0.0/10"@
    &&& c.segment_size == 24
    &&& c.operator_pool_cidr@ == "100.127.0.0/24"@
    &&& c.server_virtual_ip@ == "100.127.0.1"@
    &&& c.tunnel_addr@ == "0.0.0.0:8444"@
}

impl Default for ServerConfig {
    fn default() -> (c: ServerConfig)
        ensures
            is_default(c),
    {
        ServerConfig {
            listen_addr: "0.0.0.0:8443".to_owned(),
            database_url: "sqlite://data/nettool.db?mode=rwc".to_owned(),
            web_admin_dir: "./web-admin".to_owned(),
            log_level: "info".to_owned(),
            client_pool_cidr: "100.64.0.0/10".to_owned(),
            segment_size: 24,
            operator_pool_cidr: "100.127.0.0/24".to_owned(),
            server_virtual_ip: "100.127.0.1".to_owned(),
            tunnel_addr: "0.0.0.0:8444".to_owned(),
        }
    }
}

/// A text setting after an override: the variable's value where it is set.
pub open spec fn overridden(base: String, var: Option<String>) -> Seq<char> {
    match var {
        Some(v) => v@,
        None => base@,
    }
}

/// The segment size after an override: the variable's value where it is
/// set and parses as a `u32`.
pub open spec fn overridden_size(base: u32, var: Option<String>) -> u32 {
    match var {
        Some(v) => match parse_unsigned(v@, 4294967295) {
            Some(n) => n as u32,
            None => base,
        },
        None => base,
    }
}

/// `config` with every set variable of `env` put over it.
pub open spec fn applied(config: ServerConfig, env: EnvOverrides, c: ServerConfig) -> bool {
    &&& c.listen_addr@ == overridden(config.listen_addr, env.listen_addr)
    &&& c.database_url@ == overridden(config.database_url, env.database_url)
    &&& c.web_admin_dir@ == overridden(config.web_admin_dir, env.web_admin_dir)
    &&& c.log_level@ == overridden(config.log_level, env.log_level)
    &&& c.client_pool_cidr@ == overridden(config.client_pool_cidr, env.client_pool_cidr)
    &&& c.segment_size == overridden_size(config.segment_size, env.segment_size)
    &&& c.operator_pool_cidr@ == overridden(config.operator_pool_cidr, env.operator_pool_cidr)
    &&& c.server_virtual_ip@ == overridden(config.server_virtual_ip, env.server_virtual_ip)
    &&& c.tunnel_addr@ == overridden(config.tunnel_addr, env.tunnel_addr)
}

fn pick(base: String, var: Option<String>) -> (r: String)
    ensures
        r@ == overridden(base, var),
{
    match var {
        Some(v) => v,
        None => base,
    }
}

impl ServerConfig {
    /// Puts the set environment variables over the settings; a segment size
    /// that does not parse as a `u32` is ignored.
    pub fn override_from_env(self, env: EnvOverrides) -> (c: ServerConfig)
        ensures
            applied(self, env, c),
    {
        let segment_size = match &env.segment_size {
            Some(v) => {
                let chars = chars_of(v.as_str());
                match parse_u32_chars(chars.as_slice()) {
                    Some(n) => n,
                    None => self.segment_size,
                }
            },
            None => self.segment_size,
        };
        ServerConfig {
            listen_addr: pick(self.listen_addr, env.listen_addr),
            database_url: pick(self.database_url, env.database_url),
            web_admin_dir: pick(self.web_admin_dir, env.web_admin_dir),
            log_level: pick(self.log_level, env.log_level),
            client_pool_cidr: pick(self.client_pool_cidr, env.client_pool_cidr),
            segment_size,
            operator_pool_cidr: pick(self.operator_pool_cidr, env.operator_pool_cidr),
            server_virtual_ip: pick(self.server_virtual_ip, env.server_virtual_ip),
            tunnel_addr: pick(self.tunnel_addr, env.tunnel_addr),
        }
    }

    /// The settings: those of the first configuration file that parsed
    /// (`from_file`), else the defaults, with the environment over them.
    pub fn load(from_file: Option<ServerConfig>, env: EnvOverrides) -> (c: ServerConfig)
        ensures
            match from_file {
                Some(f) => applied(f, env, c),
                None => exists|d: ServerConfig| is_default(d) && applied(d, env, c),
            },
    {
        let base = match from_file {
            Some(f) => f,
            None => ServerConfig::default(),
        };
        base.override_from_env(env)
    }
}

/// The configuration files to try, in order: the one that
/// `NETTOOL_CONFIG` names where it is set, else `config.toml` and
/// `/etc/nettool/config.toml`.
pub fn config_candidates(env_path: Option<String>) -> (r: Vec<String>)
    ensures
        match env_path {
            Some(p) => r@.len() == 1 && r@[0] == p,
            None => r@.len() == 2 && r@[0]@ == "config.toml"@ && r@[1]@ == "/etc/nettool/config.toml"@,
        },
{
    let mut r: Vec<String> = Vec::new();
    match env_path {
        Some(p) => {
            r.push(p);
        },
        None => {
            r.push("config.toml".to_owned());
            r.push("/etc/nettool/config.toml".to_owned());
        },
    }
    r
}

} // verus!

//! The configuration files of the server and of the nodes.

use vstd::prelude::*;
use crate::models::{AddressPool, NodeRole};

verus! {

/// The server's configuration file.
#[derive(Debug, Clone)]
pub struct ServerConfig {
    /// Address to listen on, such as `0.0.0.0:8443`.
    pub listen_addr: String,
    /// Database URL, such as `sqlite:nettool.db`.
    pub database_url: String,
    /// Directory of the web-admin files.
    pub web_admin_dir: String,
    /// Log level, such as `info`.
    pub log_level: String,
    /// The address pool.
    pub address_pool: AddressPool,
}

impl Default for ServerConfig {
    fn default() -> (c: ServerConfig)
        ensures
            c.listen_addr@ == "0.0.0.0:8443"@,
            c.database_url@ == "sqlite:nettool.db"@,
            c.web_admin_dir@ == "web-admin"@,
            c.log_level@ == "info"@,
            c.address_pool.client_pool_cidr@ == Seq::<char>::empty(),
            c.address_pool.segment_size == 0,
            c.address_pool.operator_pool_cidr@ == Seq::<char>::empty(),
            c.address_pool.server_virtual_ip@ == Seq::<char>::empty(),
    {
        ServerConfig {
            listen_addr: "0.0.0.0:8443".to_owned(),
            database_url: "sqlite:nettool.db".to_owned(),
            web_admin_dir: "web-admin".to_owned(),
            log_level: "info".to_owned(),
            address_pool: AddressPool::default(),
        }
    }
}

/// A node's configuration file.
#[derive(Debug, Clone)]
pub struct ClientConfig {
    /// The server, as `IP:port` or `domain:port`.
    pub server_addr: String,
    /// The node's name.
    pub node_name: String,
    /// The node's role.
    pub role: NodeRole,
    /// A remark.
    pub remark: Option<String>,
    /// Whether to reconnect after a lost connection.
    pub auto_reconnect: bool,
    /// Whether to start with the system.
    pub auto_start: bool,
    /// Log level, such as `info`.
    pub log_level: String,
}

impl Default for ClientConfig {
    fn default() -> (c: ClientConfig)
        ensures
            c.server_addr@ == "127.0.0.1:8443"@,
            c.node_name@ == "unnamed-node"@,
            c.role == NodeRole::Client,
            c.remark is None,
            c.auto_reconnect,
            !c.auto_start,
            c.log_level@ == "info"@,
    {
        ClientConfig {
            server_addr: "127.0.0.1:8443".to_owned(),
            node_name: "unnamed-node".to_owned(),
            role: NodeRole::Client,
            remark: None,
            auto_reconnect: true,
            auto_start: false,
            log_level: "info".to_owned(),
        }
    }
}

} // verus!

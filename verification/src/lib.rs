//! net_tool: the verified core of a layer-3 overlay networking tool.
//!
//! Modules:
//! - [`text`]: character-sequence helpers and decimal numbers
//! - [`ip`]: IPv4 / CIDR arithmetic
//! - [`tunnel`]: the tunnel frame protocol
//! - [`packet`]: IPv4 packets, address rewriting and the header checksum
//! - [`route`]: bookkeeping of added system routes
//! - [`nat_rules`]: NAT rules between mapped and real segments
//! - [`models`]: stored records and their enumerations
//! - [`api`]: requests and responses of the HTTP API
//! - [`common_config`]: configuration files of the server and the nodes
//! - [`error`]: errors of storage and allocation
//! - [`allocation`]: the server's address allocation and segment checks
//! - [`policy`]: which routes the server hands to a node
//! - [`records`]: the server's stored records built from their rows
//! - [`relay`]: the server's tunnel relay decisions and route table
//! - [`server_config`]: the server's settings and what overrides them
//! - [`connection`]: a node's dealings with the server's HTTP API
//! - [`diagnostic`]: connectivity checks and server addresses
//! - [`tunnel_client`]: the node side of the tunnel
//! - [`display`]: terminal colours and text tables
//! - [`scanner`]: the local network interfaces (Linux)
//! - [`ipconfig`]: the local network interfaces (Windows `ipconfig`)
//! - [`commands`]: interactive commands, interface choice and address conversion
//! - [`cli`]: the command line
//! - [`client_config`]: the configuration a node runs with
//! - [`desktop`]: the desktop application's session, checks and address conversion

pub mod text;
pub mod ip;
pub mod tunnel;
pub mod packet;
pub mod route;
pub mod nat_rules;
pub mod models;
pub mod api;
pub mod common_config;
pub mod error;
pub mod allocation;
pub mod policy;
pub mod records;
pub mod relay;
pub mod server_config;
pub mod connection;
pub mod diagnostic;
pub mod tunnel_client;
pub mod display;
pub mod scanner;
pub mod ipconfig;
pub mod commands;
pub mod cli;
pub mod client_config;
pub mod desktop;

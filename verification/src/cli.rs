//! The command line of the `net-tool` program: one subcommand per mode
//! (server, client, operator) and the options they share.

use vstd::prelude::*;

verus! {

/// The options every mode takes.
#[derive(Debug, Clone)]
pub struct CommonArgs {
    /// The server, such as `127.0.0.1:8443` or `https://server.example.com:8443`.
    pub server_addr: Option<String>,
    /// The node's name.
    pub name: Option<String>,
    /// A remark.
    pub remark: Option<String>,
    /// Whether to reconnect after a lost connection.
    pub auto_reconnect: Option<bool>,
    /// Whether to start with the system.
    pub auto_start: Option<bool>,
    /// The configuration file.
    pub config: Option<String>,
    /// Whether to run a connectivity check first.
    pub diagnostic: bool,
    /// Log level: error / warn / info / debug / trace.
    pub log_level: Option<String>,
}

/// The mode to run in.
#[derive(Debug, Clone)]
pub enum Commands {
    /// The server, listening on `bind`, optionally opening the web admin.
    Server { bind: String, open: bool, common: CommonArgs },
    /// An ordinary client that reports its real segments.
    Client { common: CommonArgs },
    /// An operator that reaches the clients' segments.
    Operator { common: CommonArgs },
}

/// The command line.
#[derive(Debug, Clone)]
pub struct Cli {
    pub command: Commands,
}

/// The shared options of a subcommand.
pub open spec fn common_of(c: Commands) -> CommonArgs {
    match c {
        Commands::Server { common, .. } => common,
        Commands::Client { common } => common,
        Commands::Operator { common } => common,
    }
}

impl Cli {
    /// The log level that the subcommand's options ask for.
    pub fn common_log_level(&self) -> (r: Option<String>)
        ensures
            r == common_of(self.command).log_level,
    {
        match &self.command {
            Commands::Server { common, .. } => common.log_level.clone(),
            Commands::Client { common } => common.log_level.clone(),
            Commands::Operator { common } => common.log_level.clone(),
        }
    }
}

} // verus!

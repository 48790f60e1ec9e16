//! Configuration sourced from the CLI

use vstd::prelude::*;

verus! {

/// River: A reverse proxy from Prossimo
#[derive(Debug, Clone, PartialEq, Eq, Default)]
pub struct Cli {
    /// Validate all configuration data and exit
    pub validate_configs: bool,
    /// Path to the configuration file in TOML format
    pub config_toml: Option<String>,
    /// Path to the configuration file in KDL format
    pub config_kdl: Option<String>,
    /// Number of threads used in the worker pool for EACH service
    pub threads_per_service: Option<usize>,
    /// Should the server be daemonized after starting?
    pub daemonize: bool,
    /// Should the server take over an existing server?
    pub upgrade: bool,
    /// Path to upgrade socket
    pub upgrade_socket: Option<String>,
    /// Path to the pidfile, used for upgrade
    pub pidfile: Option<String>,
}

} // verus!

//! Configuration: what the command line and the configuration files say,
//! and the internal record that the services are built from.

pub mod cli;
pub mod internal;
pub mod kdl;
pub mod toml;

use crate::config::cli::Cli;
use crate::config::toml::Toml;
use vstd::prelude::*;

verus! {

/// Which configuration files a command line names.
#[derive(Debug, Clone, Copy, PartialEq, Eq, Structural)]
pub enum ConfigSource {
    /// Neither file: the defaults stand.
    Defaults,
    /// The TOML file.
    Toml,
    /// The KDL file.
    Kdl,
}

/// The configuration file to load. River does not merge a TOML and a KDL
/// file: where both are named there is no source.
pub fn config_source(cli: &Cli) -> (r: Option<ConfigSource>)
    ensures
        r == (match (cli.config_toml, cli.config_kdl) {
            (Some(_), None) => Some(ConfigSource::Toml),
            (None, Some(_)) => Some(ConfigSource::Kdl),
            (None, None) => Some(ConfigSource::Defaults),
            (Some(_), Some(_)) => None,
        }),
{
    match (&cli.config_toml, &cli.config_kdl) {
        (Some(_), None) => Some(ConfigSource::Toml),
        (None, Some(_)) => Some(ConfigSource::Kdl),
        (None, None) => Some(ConfigSource::Defaults),
        (Some(_), Some(_)) => None,
    }
}

/// Lays the command line over a configuration: the command line has the
/// highest priority. Nothing but the two fields it can set is touched.
pub fn apply_cli(conf: &mut internal::Config, cli: &Cli)
    ensures
        final(conf).validate_configs == (old(conf).validate_configs || cli.validate_configs),
        final(conf).threads_per_service == (match cli.threads_per_service {
            Some(tps) => tps,
            None => old(conf).threads_per_service,
        }),
        final(conf).daemonize == old(conf).daemonize,
        final(conf).pid_file == old(conf).pid_file,
        final(conf).upgrade_socket == old(conf).upgrade_socket,
        final(conf).upgrade == old(conf).upgrade,
        final(conf).basic_proxies == old(conf).basic_proxies,
        final(conf).file_servers == old(conf).file_servers,
{
    conf.validate_configs = conf.validate_configs || cli.validate_configs;
    if let Some(tps) = cli.threads_per_service {
        conf.threads_per_service = tps;
    }
}

/// Lays a TOML configuration over a configuration that has no proxies yet:
/// the file sets the proxies and the number of threads. A connector whose
/// address is no socket address gives no configuration.
pub fn apply_toml(conf: &mut internal::Config, toml: Toml) -> (r: bool)
    requires
        old(conf).basic_proxies@.len() == 0,
    ensures
        r == toml::all_connectors_valid(toml.basic_proxy@),
        r ==> final(conf).threads_per_service == toml.system.threads_per_service,
        r ==> final(conf).basic_proxies@.len() == toml.basic_proxy@.len(),
        r ==> forall|i: int|
            0 <= i < toml.basic_proxy@.len() ==> toml::proxy_matches(
                #[trigger] toml.basic_proxy@[i],
                final(conf).basic_proxies@[i],
            ),
        !r ==> *final(conf) == *old(conf),
        final(conf).validate_configs == old(conf).validate_configs,
        final(conf).daemonize == old(conf).daemonize,
        final(conf).pid_file == old(conf).pid_file,
        final(conf).upgrade_socket == old(conf).upgrade_socket,
        final(conf).upgrade == old(conf).upgrade,
        final(conf).file_servers == old(conf).file_servers,
{
    let threads = toml.system.threads_per_service;
    let ghost proxies = toml.basic_proxy@;
    let mut basic_proxy: Vec<internal::ProxyConfig> = Vec::new();
    for p in it: toml.basic_proxy
        invariant
            it.seq() == proxies,
            basic_proxy@.len() == it.index(),
            forall|i: int|
                0 <= i < it.index() ==> toml::connector_valid((#[trigger] proxies[i]).connector),
            forall|i: int|
                0 <= i < it.index() ==> toml::proxy_matches(#[trigger] proxies[i], basic_proxy@[i]),
    {
        match internal::ProxyConfig::from(p) {
            Some(proxy) => {
                basic_proxy.push(proxy);
            },
            None => {
                return false;
            },
        }
    }
    conf.basic_proxies = basic_proxy;
    conf.threads_per_service = threads;
    true
}

} // verus!

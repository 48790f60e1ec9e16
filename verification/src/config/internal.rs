//! This is the *actual* internal configuration structure.
//!
//! It is ONLY used for the internal configuration, and should not ever
//! be exposed as the public API for CLI, Env vars, or via Serde.
//!
//! This is used as the buffer between any external stable UI, and internal
//! impl details which may change at any time.

use crate::net::SocketAddress;
use crate::proxy::rate_limiting::multi::{MultiRaterConfig, MultiRequestKeyKind};
use crate::proxy::rate_limiting::single::{SingleInstanceConfig, SingleRequestKeyKind};
use crate::proxy::rate_limiting::AllRateConfig;
use crate::proxy::request_selector::RequestSelector;
use crate::settings::Settings;
use vstd::prelude::*;

verus! {

/// River's internal configuration
#[derive(Debug, Clone)]
pub struct Config {
    pub validate_configs: bool,
    pub threads_per_service: usize,
    pub daemonize: bool,
    pub pid_file: Option<String>,
    pub upgrade_socket: Option<String>,
    pub upgrade: bool,
    pub basic_proxies: Vec<ProxyConfig>,
    pub file_servers: Vec<FileServerConfig>,
}

/// The command-line options that the HTTP engine takes.
#[derive(Debug, Clone, PartialEq, Eq)]
pub struct PingoraOpt {
    pub upgrade: bool,
    pub daemon: bool,
    pub nocapture: bool,
    pub test: bool,
    pub conf: Option<String>,
}

/// The server settings that the HTTP engine takes.
#[derive(Debug, Clone, PartialEq, Eq)]
pub struct PingoraServerConf {
    pub daemon: bool,
    pub error_log: Option<String>,
    pub pid_file: String,
    pub upgrade_sock: String,
    pub user: Option<String>,
    pub group: Option<String>,
    pub threads: usize,
    pub work_stealing: bool,
    pub ca_file: Option<String>,
}

/// What is wrong with the process settings of a configuration.
#[derive(Debug, Clone, Copy, PartialEq, Eq, Structural)]
pub enum ValidationError {
    /// Daemonize commanded but no pid file set.
    DaemonizeWithoutPidFile,
    /// The pid file path must be absolute.
    PidFileNotAbsolute,
    /// Upgrade is only supported on linux.
    UpgradeNotSupported,
    /// Upgrade commanded but upgrade socket path not set.
    UpgradeWithoutSocket,
    /// The upgrade socket path must be absolute.
    UpgradeSocketNotAbsolute,
}

/// A path is absolute when it starts at the root.
pub open spec fn is_absolute(path: Seq<char>) -> bool {
    path.len() > 0 && path[0] == '/'
}

/// Whether `path` is absolute.
pub fn path_is_absolute(path: &str) -> (r: bool)
    ensures
        r == is_absolute(path@),
{
    path.unicode_len() > 0 && path.get_char(0) == '/'
}

/// What `Config::validate` finds for these settings.
pub open spec fn validation_of(
    daemonize: bool,
    pid_file: Option<Seq<char>>,
    upgrade: bool,
    upgrade_socket: Option<Seq<char>>,
    upgrade_supported: bool,
) -> Result<(), ValidationError> {
    if daemonize && pid_file.is_none() {
        Err(ValidationError::DaemonizeWithoutPidFile)
    } else if daemonize && !is_absolute(pid_file.unwrap()) {
        Err(ValidationError::PidFileNotAbsolute)
    } else if upgrade && !upgrade_supported {
        Err(ValidationError::UpgradeNotSupported)
    } else if upgrade && upgrade_socket.is_none() {
        Err(ValidationError::UpgradeWithoutSocket)
    } else if upgrade && !is_absolute(upgrade_socket.unwrap()) {
        Err(ValidationError::UpgradeSocketNotAbsolute)
    } else {
        Ok(())
    }
}

/// The view of an optional text.
pub open spec fn opt_view(s: Option<String>) -> Option<Seq<char>> {
    match s {
        Some(s) => Some(s@),
        None => None,
    }
}

impl Config {
    /// Get the [`PingoraOpt`] of this configuration.
    pub fn pingora_opt(&self) -> (r: PingoraOpt)
        ensures
            r.upgrade == self.upgrade,
            r.daemon == self.daemonize,
            !r.nocapture,
            r.test == self.validate_configs,
            r.conf.is_none(),
    {
        PingoraOpt {
            upgrade: self.upgrade,
            daemon: self.daemonize,
            nocapture: false,
            test: self.validate_configs,
            conf: None,
        }
    }

    /// Get the [`PingoraServerConf`] of this configuration. Where no pid file
    /// or upgrade socket is set, the ones under `/tmp` are taken.
    pub fn pingora_server_conf(&self) -> (r: PingoraServerConf)
        ensures
            r.daemon == self.daemonize,
            r.error_log.is_none(),
            r.pid_file@ == (match self.pid_file {
                Some(p) => p@,
                None => "/tmp/river.pidfile"@,
            }),
            r.upgrade_sock@ == (match self.upgrade_socket {
                Some(p) => p@,
                None => "/tmp/river-upgrade.sock"@,
            }),
            r.user.is_none(),
            r.group.is_none(),
            r.threads == self.threads_per_service,
            r.work_stealing,
            r.ca_file.is_none(),
    {
        let pid_file = match &self.pid_file {
            Some(p) => p.clone(),
            None => String::from_str("/tmp/river.pidfile"),
        };
        let upgrade_sock = match &self.upgrade_socket {
            Some(p) => p.clone(),
            None => String::from_str("/tmp/river-upgrade.sock"),
        };
        PingoraServerConf {
            daemon: self.daemonize,
            error_log: None,
            pid_file,
            upgrade_sock,
            user: None,
            group: None,
            threads: self.threads_per_service,
            work_stealing: true,
            ca_file: None,
        }
    }

    /// Checks the process settings: a daemon needs an absolute pid file, and
    /// an upgrade needs a platform that supports it and an absolute upgrade
    /// socket.
    pub fn validate(&self, upgrade_supported: bool) -> (r: Result<(), ValidationError>)
        ensures
            r == validation_of(
                self.daemonize,
                opt_view(self.pid_file),
                self.upgrade,
                opt_view(self.upgrade_socket),
                upgrade_supported,
            ),
    {
        if self.daemonize {
            match &self.pid_file {
                Some(pf) => {
                    if !path_is_absolute(pf.as_str()) {
                        return Err(ValidationError::PidFileNotAbsolute);
                    }
                },
                None => {
                    return Err(ValidationError::DaemonizeWithoutPidFile);
                },
            }
        }
        if self.upgrade {
            if !upgrade_supported {
                return Err(ValidationError::UpgradeNotSupported);
            }
            match &self.upgrade_socket {
                Some(us) => {
                    if !path_is_absolute(us.as_str()) {
                        return Err(ValidationError::UpgradeSocketNotAbsolute);
                    }
                },
                None => {
                    return Err(ValidationError::UpgradeWithoutSocket);
                },
            }
        }
        Ok(())
    }
}

/// Add Path Control Modifiers
///
/// Each list keeps the order of the configuration file, which is the order
/// in which its filters run.
#[derive(Debug, Clone, Default, PartialEq)]
pub struct PathControl {
    pub request_filters: Vec<Settings>,
    pub upstream_request_filters: Vec<Settings>,
    pub upstream_response_filters: Vec<Settings>,
}

//
// File Server Configuration
//
#[derive(Debug, Clone)]
pub struct FileServerConfig {
    pub name: String,
    pub listeners: Vec<ListenerConfig>,
    pub base_path: Option<String>,
}

/// The protocols that a connection to an upstream offers.
#[derive(Debug, PartialEq, Eq, Clone, Copy, Structural)]
pub enum Alpn {
    H1,
    H2,
    H2H1,
}

/// An upstream that requests are forwarded to.
#[derive(Debug, PartialEq, Eq, Clone)]
pub struct UpstreamPeer {
    pub address: SocketAddress,
    /// Whether the connection uses TLS.
    pub tls: bool,
    /// The server name for TLS. Empty without TLS.
    pub sni: String,
    pub alpn: Alpn,
}

impl UpstreamPeer {
    /// HTTP/2 is offered over TLS only, which takes a server name.
    pub open spec fn wf(&self) -> bool {
        self.alpn != Alpn::H1 ==> self.tls && self.sni@.len() > 0
    }
}

//
// Basic Proxy Configuration
//
#[derive(Debug, Clone)]
pub struct ProxyConfig {
    pub name: String,
    pub listeners: Vec<ListenerConfig>,
    pub upstream_options: UpstreamOptions,
    pub upstreams: Vec<UpstreamPeer>,
    pub path_control: PathControl,
    pub rate_limiting: RateLimitingConfig,
}

#[derive(Debug, Default, Clone, PartialEq)]
pub struct RateLimitingConfig {
    /// Reserved: the limiters never wait.
    pub timeout_ms: Option<usize>,
    pub rules: Vec<AllRateConfig>,
}

#[derive(Debug, PartialEq, Eq, Clone)]
pub struct TlsConfig {
    pub cert_path: String,
    pub key_path: String,
}

#[derive(Debug, PartialEq, Eq, Clone)]
pub struct ListenerConfig {
    pub source: ListenerKind,
}

#[derive(Debug, PartialEq, Eq, Clone)]
pub enum ListenerKind {
    Tcp { addr: String, tls: Option<TlsConfig>, offer_h2: bool },
    Uds(String),
}

impl ListenerKind {
    /// HTTP/2 is offered over TLS only.
    pub open spec fn wf(&self) -> bool {
        match self {
            ListenerKind::Tcp { tls, offer_h2, .. } => *offer_h2 ==> tls.is_some(),
            ListenerKind::Uds(_) => true,
        }
    }
}

#[derive(Debug, PartialEq, Eq, Clone, Copy, Structural)]
pub struct UpstreamOptions {
    pub selection: SelectionKind,
    pub selector: RequestSelector,
    pub health_checks: HealthCheckKind,
    pub discovery: DiscoveryKind,
}

impl UpstreamOptions {
    /// A selection that hashes the key takes a selector that makes one.
    pub open spec fn wf(&self) -> bool {
        (self.selection == SelectionKind::Fnv || self.selection == SelectionKind::Ketama)
            ==> self.selector != RequestSelector::Null
    }
}

impl Default for UpstreamOptions {
    fn default() -> (r: Self)
        ensures
            r == (UpstreamOptions {
                selection: SelectionKind::RoundRobin,
                selector: RequestSelector::Null,
                health_checks: HealthCheckKind::NoCheck,
                discovery: DiscoveryKind::Static,
            }),
    {
        UpstreamOptions {
            selection: SelectionKind::RoundRobin,
            selector: RequestSelector::Null,
            health_checks: HealthCheckKind::NoCheck,
            discovery: DiscoveryKind::Static,
        }
    }
}

#[derive(Debug, PartialEq, Eq, Clone, Copy, Structural)]
pub enum SelectionKind {
    RoundRobin,
    Random,
    Fnv,
    Ketama,
}

#[derive(Debug, PartialEq, Eq, Clone, Copy, Structural)]
pub enum HealthCheckKind {
    /// Upstreams are not probed.
    NoCheck,
}

#[derive(Debug, PartialEq, Eq, Clone, Copy, Structural)]
pub enum DiscoveryKind {
    Static,
}

//
// Boilerplate trait impls
//
impl Default for Config {
    fn default() -> (r: Self)
        ensures
            !r.validate_configs,
            r.threads_per_service == 8,
            r.basic_proxies@.len() == 0,
            r.file_servers@.len() == 0,
            !r.daemonize,
            r.pid_file.is_none(),
            !r.upgrade,
            r.upgrade_socket.is_none(),
    {
        Config {
            validate_configs: false,
            threads_per_service: 8,
            basic_proxies: Vec::new(),
            file_servers: Vec::new(),
            daemonize: false,
            pid_file: None,
            upgrade: false,
            upgrade_socket: None,
        }
    }
}

//
// What the configuration records hold
//
/// What a `TlsConfig` holds.
pub struct TlsConfigView {
    pub cert_path: Seq<char>,
    pub key_path: Seq<char>,
}

impl View for TlsConfig {
    type V = TlsConfigView;

    open spec fn view(&self) -> TlsConfigView {
        TlsConfigView { cert_path: self.cert_path@, key_path: self.key_path@ }
    }
}

/// What a `ListenerConfig` holds.
pub enum ListenerView {
    Tcp { addr: Seq<char>, tls: Option<TlsConfigView>, offer_h2: bool },
    Uds(Seq<char>),
}

impl ListenerView {
    /// HTTP/2 is offered over TLS only.
    pub open spec fn wf(self) -> bool {
        match self {
            ListenerView::Tcp { tls, offer_h2, .. } => offer_h2 ==> tls.is_some(),
            ListenerView::Uds(_) => true,
        }
    }
}

impl View for ListenerKind {
    type V = ListenerView;

    open spec fn view(&self) -> ListenerView {
        match self {
            ListenerKind::Tcp { addr, tls, offer_h2 } => ListenerView::Tcp {
                addr: addr@,
                tls: match tls {
                    Some(t) => Some(t@),
                    None => None,
                },
                offer_h2: *offer_h2,
            },
            ListenerKind::Uds(path) => ListenerView::Uds(path@),
        }
    }
}

impl View for ListenerConfig {
    type V = ListenerView;

    open spec fn view(&self) -> ListenerView {
        self.source@
    }
}

/// What an `UpstreamPeer` holds.
pub struct UpstreamPeerView {
    pub address: SocketAddress,
    pub tls: bool,
    pub sni: Seq<char>,
    pub alpn: Alpn,
}

impl UpstreamPeerView {
    /// HTTP/2 is offered over TLS only, which takes a server name.
    pub open spec fn wf(self) -> bool {
        self.alpn != Alpn::H1 ==> self.tls && self.sni.len() > 0
    }
}

impl View for UpstreamPeer {
    type V = UpstreamPeerView;

    open spec fn view(&self) -> UpstreamPeerView {
        UpstreamPeerView { address: self.address, tls: self.tls, sni: self.sni@, alpn: self.alpn }
    }
}

/// What an `AllRateConfig` holds.
pub enum RateRuleView {
    /// One bucket for all URI paths that match the pattern.
    UriGroup { pattern: Seq<char>, config: SingleInstanceConfig },
    /// One bucket per client IP address.
    SourceIp { config: MultiRaterConfig },
    /// One bucket per URI path that matches the pattern.
    Uri { pattern: Seq<char>, config: MultiRaterConfig },
}

impl View for AllRateConfig {
    type V = RateRuleView;

    open spec fn view(&self) -> RateRuleView {
        match self {
            AllRateConfig::Single {
                kind: SingleRequestKeyKind::UriGroup { pattern },
                config,
            } => RateRuleView::UriGroup { pattern: pattern.pattern(), config: *config },
            AllRateConfig::Multi {
                kind: MultiRequestKeyKind::SourceIp,
                config,
            } => RateRuleView::SourceIp { config: *config },
            AllRateConfig::Multi {
                kind: MultiRequestKeyKind::Uri { pattern },
                config,
            } => RateRuleView::Uri { pattern: pattern.pattern(), config: *config },
        }
    }
}

/// What a `RateLimitingConfig` holds.
pub struct RateLimitingView {
    pub timeout_ms: Option<usize>,
    pub rules: Seq<RateRuleView>,
}

impl View for RateLimitingConfig {
    type V = RateLimitingView;

    open spec fn view(&self) -> RateLimitingView {
        RateLimitingView {
            timeout_ms: self.timeout_ms,
            rules: self.rules@.map_values(|r: AllRateConfig| r@),
        }
    }
}

/// What a `PathControl` holds.
pub struct PathControlView {
    pub request_filters: Seq<Seq<(Seq<char>, Seq<char>)>>,
    pub upstream_request_filters: Seq<Seq<(Seq<char>, Seq<char>)>>,
    pub upstream_response_filters: Seq<Seq<(Seq<char>, Seq<char>)>>,
}

impl View for PathControl {
    type V = PathControlView;

    open spec fn view(&self) -> PathControlView {
        PathControlView {
            request_filters: self.request_filters@.map_values(|s: Settings| s@),
            upstream_request_filters: self.upstream_request_filters@.map_values(|s: Settings| s@),
            upstream_response_filters: self.upstream_response_filters@.map_values(
                |s: Settings| s@,
            ),
        }
    }
}

/// What a `ProxyConfig` holds.
pub struct ProxyConfigView {
    pub name: Seq<char>,
    pub listeners: Seq<ListenerView>,
    pub upstream_options: UpstreamOptions,
    pub upstreams: Seq<UpstreamPeerView>,
    pub path_control: PathControlView,
    pub rate_limiting: RateLimitingView,
}

impl View for ProxyConfig {
    type V = ProxyConfigView;

    open spec fn view(&self) -> ProxyConfigView {
        ProxyConfigView {
            name: self.name@,
            listeners: self.listeners@.map_values(|l: ListenerConfig| l@),
            upstream_options: self.upstream_options,
            upstreams: self.upstreams@.map_values(|p: UpstreamPeer| p@),
            path_control: self.path_control@,
            rate_limiting: self.rate_limiting@,
        }
    }
}

/// What a `FileServerConfig` holds.
pub struct FileServerConfigView {
    pub name: Seq<char>,
    pub listeners: Seq<ListenerView>,
    pub base_path: Option<Seq<char>>,
}

impl View for FileServerConfig {
    type V = FileServerConfigView;

    open spec fn view(&self) -> FileServerConfigView {
        FileServerConfigView {
            name: self.name@,
            listeners: self.listeners@.map_values(|l: ListenerConfig| l@),
            base_path: opt_view(self.base_path),
        }
    }
}

/// What a `Config` holds.
pub struct ConfigView {
    pub validate_configs: bool,
    pub threads_per_service: usize,
    pub daemonize: bool,
    pub pid_file: Option<Seq<char>>,
    pub upgrade_socket: Option<Seq<char>>,
    pub upgrade: bool,
    pub basic_proxies: Seq<ProxyConfigView>,
    pub file_servers: Seq<FileServerConfigView>,
}

impl View for Config {
    type V = ConfigView;

    open spec fn view(&self) -> ConfigView {
        ConfigView {
            validate_configs: self.validate_configs,
            threads_per_service: self.threads_per_service,
            daemonize: self.daemonize,
            pid_file: opt_view(self.pid_file),
            upgrade_socket: opt_view(self.upgrade_socket),
            upgrade: self.upgrade,
            basic_proxies: self.basic_proxies@.map_values(|p: ProxyConfig| p@),
            file_servers: self.file_servers@.map_values(|f: FileServerConfig| f@),
        }
    }
}

} // verus!

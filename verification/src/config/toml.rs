//! Configuration sourced from a TOML file

use crate::config::internal;
use crate::net::{parse_socket_addr, socket_addr_of};
use crate::settings::Settings;
use vstd::prelude::*;

verus! {

/// Configuration used for TOML formatted files
#[derive(Debug, PartialEq, Clone)]
pub struct Toml {
    /// System-wide configuration valies
    pub system: System,
    /// Configuration for each Basic Proxy instance
    pub basic_proxy: Vec<ProxyConfig>,
}

//
// System Config
//
/// System level configuration options
#[derive(Debug, PartialEq, Eq, Clone, Copy, Structural)]
pub struct System {
    pub threads_per_service: usize,
}

impl Default for System {
    fn default() -> (r: Self)
        ensures
            r.threads_per_service == 8,
    {
        System { threads_per_service: Self::default_threads_per_service() }
    }
}

impl System {
    /// The number of worker threads of a service, where none is configured.
    pub fn default_threads_per_service() -> (r: usize)
        ensures
            r == 8,
    {
        8
    }
}

/// Add Path Control Modifiers
///
/// Each list keeps the order of the configuration file.
#[derive(Debug, PartialEq, Clone, Default)]
pub struct PathControl {
    pub upstream_request_filters: Vec<Settings>,
    pub upstream_response_filters: Vec<Settings>,
}

//
// Basic Proxy Configuration
//
#[derive(Debug, PartialEq, Clone)]
pub struct ProxyConfig {
    /// Name of the Service. Used for logging.
    pub name: String,
    /// Listeners - or "downstream" interfaces we listen to
    pub listeners: Vec<ListenerConfig>,
    /// Connector - our (currently single) "upstream" server
    pub connector: ConnectorConfig,
    /// Path Control, for modifying and filtering requests
    pub path_control: PathControl,
}

#[derive(Debug, PartialEq, Eq, Clone)]
pub struct ConnectorConfig {
    /// Proxy Address, e.g. `IP:port`
    pub proxy_addr: String,
    /// TLS SNI, if TLS should be used
    pub tls_sni: Option<String>,
}

#[derive(Debug, PartialEq, Eq, Clone)]
pub struct ConnectorTlsConfig {
    pub proxy_sni: String,
    pub cert_path: String,
    pub key_path: String,
}

#[derive(Debug, PartialEq, Eq, Clone)]
pub struct ListenerTlsConfig {
    pub cert_path: String,
    pub key_path: String,
}

#[derive(Debug, PartialEq, Eq, Clone)]
pub struct ListenerConfig {
    pub source: ListenerKind,
}

#[derive(Debug, PartialEq, Eq, Clone)]
pub enum ListenerKind {
    Tcp { addr: String, tls: Option<ListenerTlsConfig> },
    Uds(String),
}

/// A connector can be used when its address is a socket address.
pub open spec fn connector_valid(c: ConnectorConfig) -> bool {
    socket_addr_of(c.proxy_addr@).is_some()
}

/// Whether the connector of every proxy can be used.
pub open spec fn all_connectors_valid(proxies: Seq<ProxyConfig>) -> bool {
    forall|i: int| 0 <= i < proxies.len() ==> connector_valid((#[trigger] proxies[i]).connector)
}

/// Whether `peer` is the upstream that a connector describes: with a server
/// name it is reached over TLS, without one in plain text. HTTP/1 is spoken
/// either way.
pub open spec fn peer_matches(c: ConnectorConfig, peer: internal::UpstreamPeer) -> bool {
    &&& socket_addr_of(c.proxy_addr@) == Some(peer.address)
    &&& peer.tls == c.tls_sni.is_some()
    &&& peer.sni@ == (match c.tls_sni {
        Some(sni) => sni@,
        None => Seq::<char>::empty(),
    })
    &&& peer.alpn == internal::Alpn::H1
}

/// Whether `out` is the internal form of the TOML proxy `p`: the same name,
/// listeners and filters, the connector as its one upstream, no request
/// filters, no rate limits, and the default upstream options.
pub open spec fn proxy_matches(p: ProxyConfig, out: internal::ProxyConfig) -> bool {
    &&& out.name == p.name
    &&& out.listeners@.len() == p.listeners@.len()
    &&& forall|i: int|
        0 <= i < p.listeners@.len() ==> #[trigger] out.listeners@[i]
            == internal::ListenerConfig::spec_from(p.listeners@[i])
    &&& out.upstreams@.len() == 1
    &&& peer_matches(p.connector, out.upstreams@[0])
    &&& out.path_control.request_filters@.len() == 0
    &&& out.path_control.upstream_request_filters == p.path_control.upstream_request_filters
    &&& out.path_control.upstream_response_filters == p.path_control.upstream_response_filters
    &&& out.upstream_options == (internal::UpstreamOptions {
        selection: internal::SelectionKind::RoundRobin,
        selector: crate::proxy::request_selector::RequestSelector::Null,
        health_checks: internal::HealthCheckKind::NoCheck,
        discovery: internal::DiscoveryKind::Static,
    })
    &&& out.rate_limiting.timeout_ms.is_none()
    &&& out.rate_limiting.rules@.len() == 0
}

impl internal::UpstreamPeer {
    /// The upstream that a TOML connector describes, where its address is a
    /// socket address.
    pub fn from(val: ConnectorConfig) -> (r: Option<Self>)
        ensures
            r.is_some() == connector_valid(val),
            r matches Some(peer) ==> peer_matches(val, peer) && peer.wf(),
    {
        let address = match parse_socket_addr(val.proxy_addr.as_str()) {
            Some(a) => a,
            None => {
                return None;
            },
        };
        let (tls, sni) = match val.tls_sni {
            Some(sni) => (true, sni),
            None => (false, String::new()),
        };
        Some(internal::UpstreamPeer { address, tls, sni, alpn: internal::Alpn::H1 })
    }
}

impl internal::ProxyConfig {
    /// The internal form of a TOML proxy, where its connector can be used.
    pub fn from(other: ProxyConfig) -> (r: Option<Self>)
        ensures
            r.is_some() == connector_valid(other.connector),
            r matches Some(out) ==> proxy_matches(other, out),
    {
        let peer = match internal::UpstreamPeer::from(other.connector) {
            Some(p) => p,
            None => {
                return None;
            },
        };
        let ghost sources = other.listeners@;
        let mut listeners: Vec<internal::ListenerConfig> = Vec::new();
        for l in it: other.listeners
            invariant
                it.seq() == sources,
                listeners@.len() == it.index(),
                forall|i: int|
                    0 <= i < it.index() ==> #[trigger] listeners@[i]
                        == internal::ListenerConfig::spec_from(sources[i]),
        {
            listeners.push(internal::ListenerConfig::from(l));
        }
        let mut upstreams: Vec<internal::UpstreamPeer> = Vec::new();
        upstreams.push(peer);
        Some(
            internal::ProxyConfig {
                name: other.name,
                listeners,
                upstreams,
                path_control: internal::PathControl::from(other.path_control),
                upstream_options: internal::UpstreamOptions::default(),
                rate_limiting: internal::RateLimitingConfig { timeout_ms: None, rules: Vec::new() },
            },
        )
    }
}

impl internal::PathControl {
    /// The internal form of TOML path control, which has no request filters.
    pub fn from(value: PathControl) -> (r: Self)
        ensures
            r.request_filters@.len() == 0,
            r.upstream_request_filters == value.upstream_request_filters,
            r.upstream_response_filters == value.upstream_response_filters,
    {
        internal::PathControl {
            request_filters: Vec::new(),
            upstream_request_filters: value.upstream_request_filters,
            upstream_response_filters: value.upstream_response_filters,
        }
    }
}

impl internal::TlsConfig {
    pub open spec fn spec_from(other: ListenerTlsConfig) -> Self {
        internal::TlsConfig { cert_path: other.cert_path, key_path: other.key_path }
    }

    pub fn from(other: ListenerTlsConfig) -> (r: Self)
        ensures
            r == Self::spec_from(other),
    {
        internal::TlsConfig { cert_path: other.cert_path, key_path: other.key_path }
    }
}

impl internal::ListenerConfig {
    pub open spec fn spec_from(other: ListenerConfig) -> Self {
        internal::ListenerConfig { source: internal::ListenerKind::spec_from(other.source) }
    }

    pub fn from(other: ListenerConfig) -> (r: Self)
        ensures
            r == Self::spec_from(other),
    {
        internal::ListenerConfig { source: internal::ListenerKind::from(other.source) }
    }
}

impl internal::ListenerKind {
    /// A TOML listener never offers HTTP/2.
    pub open spec fn spec_from(other: ListenerKind) -> Self {
        match other {
            ListenerKind::Tcp { addr, tls } => internal::ListenerKind::Tcp {
                addr,
                tls: match tls {
                    Some(t) => Some(internal::TlsConfig::spec_from(t)),
                    None => None,
                },
                offer_h2: false,
            },
            ListenerKind::Uds(a) => internal::ListenerKind::Uds(a),
        }
    }

    pub fn from(other: ListenerKind) -> (r: Self)
        ensures
            r == Self::spec_from(other),
            r.wf(),
    {
        match other {
            ListenerKind::Tcp { addr, tls } => internal::ListenerKind::Tcp {
                addr,
                tls: match tls {
                    Some(t) => Some(internal::TlsConfig::from(t)),
                    None => None,
                },
                offer_h2: false,
            },
            ListenerKind::Uds(a) => internal::ListenerKind::Uds(a),
        }
    }
}

} // verus!

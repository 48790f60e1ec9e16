//! Configuration sourced from a KDL document

pub mod document;
pub mod utils;

use crate::config::internal::{
    Alpn, Config, ConfigView, DiscoveryKind, FileServerConfig, FileServerConfigView,
    HealthCheckKind, ListenerConfig, ListenerKind, ListenerView, PathControl, PathControlView,
    ProxyConfig, ProxyConfigView, RateLimitingConfig, RateLimitingView, RateRuleView,
    SelectionKind, TlsConfig, TlsConfigView, UpstreamOptions, UpstreamPeer, UpstreamPeerView,
};
use crate::config::kdl::document::{
    lemma_position_named, lemma_position_of_property, position_named, position_of_property,
    property, Document, Entry, Node, SourceSpan,
};
use crate::config::internal::opt_view;
use crate::config::kdl::utils::{
    child_doc, extract_one_bool_arg, extract_one_str_arg, extract_one_str_arg_with_kv_args,
    first_without_children, kv_args_error, map_ensure_bool, map_ensure_str, one_str_arg,
    optional_child_doc, required_child_doc, str_str_args, str_str_error, str_value_args,
    str_value_error, wildcard_argless_child_docs,
};
use crate::proxy::rate_limiting::multi::{MultiRaterConfig, MultiRequestKeyKind};
use crate::proxy::rate_limiting::single::{SingleInstanceConfig, SingleRequestKeyKind};
use crate::proxy::rate_limiting::{regex_accepts, AllRateConfig, RegexShim};
use crate::proxy::request_selector::RequestSelector;
use crate::settings::{lookup, Settings};
use crate::net::{parse_socket_addr, socket_addr_of};
use crate::text::str_eq;
use vstd::prelude::*;

verus! {

/// What is wrong with a configuration document.
#[derive(Debug, Clone, Copy, PartialEq, Eq, Structural)]
pub enum BadKind {
    /// A required section is missing.
    MissingSection,
    /// Expected a nested node.
    ExpectedNestedNode,
    /// A node should be a nested block.
    ExpectedNestedBlock,
    /// Arguments should be named.
    UnnamedArgument,
    /// Arg values should be a string.
    ArgumentNotString,
    /// Expected string argument.
    ExpectedString,
    /// Expected bool argument.
    ExpectedBool,
    /// Incorrect argument for a setting.
    IncorrectArgument,
    /// Missing arguments for a setting.
    MissingArguments,
    /// Should be a named argument.
    ShouldBeNamedArgument,
    /// Should be a string value.
    ShouldBeStringValue,
    /// 'cert-path' and 'key-path' must either BOTH be present, or NEITHER
    /// should be present.
    CertKeyMismatch,
    /// 'offer-h2' requires TLS, specify 'cert-path' and 'key-path'.
    OfferH2RequiresTls,
    /// Not a valid socket address.
    NotSocketAddress,
    /// 'proto' should be one of 'h1-only', 'h2-only', or 'h2-or-h1'.
    UnknownProto,
    /// 'tls-sni' is required for HTTP2 support.
    SniRequired,
    /// 'load-balance' should have children.
    LoadBalanceNeedsChildren,
    /// A selection that hashes requires a 'key' argument.
    SelectionRequiresKey,
    /// Unknown key.
    UnknownKey,
    /// Unknown setting.
    UnknownSetting,
    /// Missing key.
    MissingKey,
    /// A setting should have a positive integer value.
    ShouldHavePositiveInteger,
    /// A setting should have a string value.
    ShouldHaveStringValue,
    /// A pattern should be a valid regular expression.
    InvalidRegex,
    /// Not a known kind of rate limiting.
    UnknownRateLimitKind,
    /// Unknown argument, missing 'millis'.
    MissingMillis,
    /// 'millis' value should be a number.
    MillisNotNumber,
    /// Can't specify 'timeout' twice.
    TimeoutTwice,
    /// Unknown name.
    UnknownName,
    /// Invalid filter rule.
    InvalidFilterRule,
    /// Nonzero listeners required.
    NonzeroListenersRequired,
    /// Don't have two 'load-balance' sections.
    DuplicateLoadBalance,
    /// We require at least one connector.
    NoConnectors,
    /// Duplicate section.
    DuplicateSection,
    /// Unknown configuration section(s).
    UnknownSection,
    /// No services defined.
    NoServices,
    /// system > threads-per-service should have exactly one entry.
    ThreadsNotOneEntry,
    /// system > threads-per-service should be an integer.
    ThreadsNotInteger,
    /// system > threads-per-service should fit in a usize.
    ThreadsNotUsize,
}

/// Incorrect configuration contents: what is wrong, and where in the source.
#[derive(Debug, Clone, Copy, PartialEq, Eq, Structural)]
pub struct Bad {
    pub kind: BadKind,
    pub span: SourceSpan,
}

/// The entry that gives the property `name` its value: the last of that name.
pub open spec fn prop(entries: Seq<Entry>, name: Seq<char>) -> Option<Entry> {
    match position_of_property(entries, name) {
        Some(i) => Some(entries[i]),
        None => None,
    }
}

/// The listener that a node of a `listeners` section describes, or what is
/// wrong with the node.
///
/// A name that is a socket address is a TCP listener, with TLS where both
/// `cert-path` and `key-path` are given; HTTP/2 is offered over TLS unless
/// `offer-h2` says otherwise, and cannot be offered without TLS. Any other
/// name is the path of a Unix-domain socket.
pub open spec fn listener_of(node: Node) -> Result<ListenerView, Bad> {
    if str_value_error(node.entries@).is_some() {
        Err(str_value_error(node.entries@).unwrap())
    } else if socket_addr_of(node.name@).is_none() {
        Ok(ListenerView::Uds(node.name@))
    } else {
        let cert = prop(node.entries@, "cert-path"@);
        let key = prop(node.entries@, "key-path"@);
        let h2 = prop(node.entries@, "offer-h2"@);
        if cert.is_some() && cert.unwrap().value.spec_string().is_none() {
            Err(Bad { kind: BadKind::ExpectedString, span: cert.unwrap().span })
        } else if key.is_some() && key.unwrap().value.spec_string().is_none() {
            Err(Bad { kind: BadKind::ExpectedString, span: key.unwrap().span })
        } else if h2.is_some() && h2.unwrap().value.spec_bool().is_none() {
            Err(Bad { kind: BadKind::ExpectedBool, span: h2.unwrap().span })
        } else if cert.is_some() != key.is_some() {
            Err(Bad { kind: BadKind::CertKeyMismatch, span: node.span })
        } else if cert.is_none() {
            if h2.is_some() && h2.unwrap().value.spec_bool() == Some(true) {
                Err(Bad { kind: BadKind::OfferH2RequiresTls, span: node.span })
            } else {
                Ok(ListenerView::Tcp { addr: node.name@, tls: None, offer_h2: false })
            }
        } else {
            Ok(
                ListenerView::Tcp {
                    addr: node.name@,
                    tls: Some(
                        TlsConfigView {
                            cert_path: cert.unwrap().value.spec_string().unwrap(),
                            key_path: key.unwrap().value.spec_string().unwrap(),
                        },
                    ),
                    offer_h2: if h2.is_some() {
                        h2.unwrap().value.spec_bool().unwrap()
                    } else {
                        true
                    },
                },
            )
        }
    }
}

/// Extracts a single listener from the `listeners` section
pub fn extract_listener(doc: &Document, node: &Node) -> (r: Result<ListenerConfig, Bad>)
    ensures
        match r {
            Ok(l) => listener_of(*node) == Ok::<ListenerView, Bad>(l@) && l@.wf(),
            Err(e) => listener_of(*node) == Err::<ListenerView, Bad>(e),
        },
{
    match str_value_args(doc, &node.entries) {
        Ok(_) => {},
        Err(e) => {
            return Err(e);
        },
    }
    // Is this a bindable name?
    if parse_socket_addr(node.name.as_str()).is_some() {
        // Cool: do we have reasonable args for this?
        let cert_path = match map_ensure_str(doc, property(&node.entries, "cert-path")) {
            Ok(v) => v,
            Err(e) => {
                return Err(e);
            },
        };
        let key_path = match map_ensure_str(doc, property(&node.entries, "key-path")) {
            Ok(v) => v,
            Err(e) => {
                return Err(e);
            },
        };
        let offer_h2 = match map_ensure_bool(doc, property(&node.entries, "offer-h2")) {
            Ok(v) => v,
            Err(e) => {
                return Err(e);
            },
        };
        match (cert_path, key_path, offer_h2) {
            // We can't offer H2 if we don't have TLS
            (None, None, Some(true)) => Err(
                Bad { kind: BadKind::OfferH2RequiresTls, span: node.span },
            ),
            // No config? No problem!
            (None, None, _) => Ok(
                ListenerConfig {
                    source: ListenerKind::Tcp {
                        addr: node.name.clone(),
                        tls: None,
                        offer_h2: false,
                    },
                },
            ),
            // We must have both of cert-path and key-path if both are present
            (None, Some(_), _) | (Some(_), None, _) => Err(
                Bad { kind: BadKind::CertKeyMismatch, span: node.span },
            ),
            (Some(cpath), Some(kpath), offer_h2) => Ok(
                ListenerConfig {
                    source: ListenerKind::Tcp {
                        addr: node.name.clone(),
                        tls: Some(
                            TlsConfig {
                                cert_path: String::from_str(cpath),
                                key_path: String::from_str(kpath),
                            },
                        ),
                        // Default to enabling H2 if unspecified
                        offer_h2: match offer_h2 {
                            Some(b) => b,
                            None => true,
                        },
                    },
                },
            ),
        }
    } else {
        Ok(ListenerConfig { source: ListenerKind::Uds(node.name.clone()) })
    }
}

/// The protocols that a `proto` setting names.
pub open spec fn alpn_of(proto: Seq<char>) -> Option<Alpn> {
    if proto == "h1-only"@ {
        Some(Alpn::H1)
    } else if proto == "h2-only"@ {
        Some(Alpn::H2)
    } else if proto == "h1-or-h2"@ || proto == "h2-or-h1"@ {
        Some(Alpn::H2H1)
    } else {
        None
    }
}

/// The upstream that a node of a `connectors` section describes, or what is
/// wrong with the node.
///
/// The name is the socket address. Without `tls-sni` the upstream is spoken
/// to in plain HTTP/1. With `tls-sni` it is reached over TLS, and offered
/// the protocols that `proto` names, HTTP/2 or HTTP/1 where it names none.
/// HTTP/2 takes a server name that is not empty.
pub open spec fn connector_of(node: Node) -> Result<UpstreamPeerView, Bad> {
    if socket_addr_of(node.name@).is_none() {
        Err(Bad { kind: BadKind::NotSocketAddress, span: node.span })
    } else if str_str_error(node.entries@).is_some() {
        Err(str_str_error(node.entries@).unwrap())
    } else {
        let proto = prop(node.entries@, "proto"@);
        let sni = prop(node.entries@, "tls-sni"@);
        if proto.is_some() && alpn_of(proto.unwrap().value.spec_string().unwrap()).is_none() {
            Err(Bad { kind: BadKind::UnknownProto, span: node.span })
        } else {
            let alpn = if proto.is_some() {
                alpn_of(proto.unwrap().value.spec_string().unwrap()).unwrap()
            } else if sni.is_some() {
                Alpn::H2H1
            } else {
                Alpn::H1
            };
            let name = if sni.is_some() {
                sni.unwrap().value.spec_string().unwrap()
            } else {
                Seq::<char>::empty()
            };
            if alpn != Alpn::H1 && name.len() == 0 {
                Err(Bad { kind: BadKind::SniRequired, span: node.span })
            } else {
                Ok(
                    UpstreamPeerView {
                        address: socket_addr_of(node.name@).unwrap(),
                        tls: sni.is_some(),
                        sni: name,
                        alpn,
                    },
                )
            }
        }
    }
}

/// Reads the protocols that a `proto` setting names.
pub fn parse_alpn(proto: &str) -> (r: Option<Alpn>)
    ensures
        r == alpn_of(proto@),
{
    if str_eq(proto, "h1-only") {
        Some(Alpn::H1)
    } else if str_eq(proto, "h2-only") {
        Some(Alpn::H2)
    } else if str_eq(proto, "h1-or-h2") || str_eq(proto, "h2-or-h1") {
        Some(Alpn::H2H1)
    } else {
        None
    }
}

/// Extracts a single connector from the `connectors` section
pub fn extract_connector(doc: &Document, node: &Node) -> (r: Result<UpstreamPeer, Bad>)
    ensures
        match r {
            Ok(peer) => connector_of(*node) == Ok::<UpstreamPeerView, Bad>(peer@) && peer.wf(),
            Err(e) => connector_of(*node) == Err::<UpstreamPeerView, Bad>(e),
        },
{
    let sadd = match parse_socket_addr(node.name.as_str()) {
        Some(a) => a,
        None => {
            return Err(Bad { kind: BadKind::NotSocketAddress, span: node.span });
        },
    };
    match str_str_args(doc, &node.entries) {
        Ok(_) => {},
        Err(e) => {
            return Err(e);
        },
    }
    let proto_entry = property(&node.entries, "proto");
    let sni_entry = property(&node.entries, "tls-sni");
    proof {
        lemma_str_str_all_strings(node.entries@);
        lemma_position_of_property(node.entries@, "proto"@);
        lemma_position_of_property(node.entries@, "tls-sni"@);
        if let Some(i) = position_of_property(node.entries@, "proto"@) {
            assert(node.entries@[i].value.spec_string().is_some());
        }
        if let Some(i) = position_of_property(node.entries@, "tls-sni"@) {
            assert(node.entries@[i].value.spec_string().is_some());
        }
    }
    let proto = match proto_entry {
        None => None,
        Some(entry) => match entry.value.as_string() {
            Some(text) => match parse_alpn(text) {
                Some(p) => Some(p),
                None => {
                    return Err(Bad { kind: BadKind::UnknownProto, span: node.span });
                },
            },
            None => {
                return Err(Bad { kind: BadKind::UnknownProto, span: node.span });
            },
        },
    };
    let tls_sni = match sni_entry {
        None => None,
        Some(entry) => entry.value.as_string(),
    };
    let (tls, sni, alpn) = match (proto, tls_sni) {
        (None, None) => (false, String::new(), Alpn::H1),
        (None, Some(sni)) => (true, String::from_str(sni), Alpn::H2H1),
        (Some(p), None) => (false, String::new(), p),
        (Some(p), Some(sni)) => (true, String::from_str(sni), p),
    };
    if !(alpn == Alpn::H1) && sni.as_str().unicode_len() == 0 {
        return Err(Bad { kind: BadKind::SniRequired, span: node.span });
    }
    let peer = UpstreamPeer { address: sadd, tls, sni, alpn };
    assert(connector_of(*node) is Ok);
    assert(connector_of(*node)->Ok_0.sni =~= peer@.sni);
    Ok(peer)
}

/// Where no argument is wrong, every argument is a string.
pub proof fn lemma_str_str_all_strings(args: Seq<Entry>)
    requires
        str_str_error(args).is_none(),
    ensures
        forall|i: int|
            0 <= i < args.len() ==> (#[trigger] args[i]).spec_name().is_some()
                && args[i].value.spec_string().is_some(),
    decreases args.len(),
{
    if args.len() > 0 {
        lemma_str_str_all_strings(args.drop_last());
        assert forall|i: int| 0 <= i < args.len() implies (#[trigger] args[i]).spec_name().is_some()
            && args[i].value.spec_string().is_some() by {
            if i < args.len() - 1 {
                assert(args[i] == args.drop_last()[i]);
            }
        }
    }
}

/// The selection that a `selection` setting names.
pub open spec fn selection_of(text: Seq<char>) -> Option<SelectionKind> {
    if text == "RoundRobin"@ {
        Some(SelectionKind::RoundRobin)
    } else if text == "Random"@ {
        Some(SelectionKind::Random)
    } else if text == "FNV"@ {
        Some(SelectionKind::Fnv)
    } else if text == "Ketama"@ {
        Some(SelectionKind::Ketama)
    } else {
        None
    }
}

/// The selector that a `key` argument names.
pub open spec fn selector_of(text: Seq<char>) -> Option<RequestSelector> {
    if text == "UriPath"@ {
        Some(RequestSelector::UriPath)
    } else if text == "SourceAddrAndUriPath"@ {
        Some(RequestSelector::SourceAddrAndUriPath)
    } else {
        None
    }
}

/// Reads the selection that a `selection` setting names.
pub fn parse_selection(text: &str) -> (r: Option<SelectionKind>)
    ensures
        r == selection_of(text@),
{
    if str_eq(text, "RoundRobin") {
        Some(SelectionKind::RoundRobin)
    } else if str_eq(text, "Random") {
        Some(SelectionKind::Random)
    } else if str_eq(text, "FNV") {
        Some(SelectionKind::Fnv)
    } else if str_eq(text, "Ketama") {
        Some(SelectionKind::Ketama)
    } else {
        None
    }
}

/// Reads the selector that a `key` argument names.
pub fn parse_selector(text: &str) -> (r: Option<RequestSelector>)
    ensures
        r == selector_of(text@),
{
    if str_eq(text, "UriPath") {
        Some(RequestSelector::UriPath)
    } else if str_eq(text, "SourceAddrAndUriPath") {
        Some(RequestSelector::SourceAddrAndUriPath)
    } else {
        None
    }
}

/// The name and value of every entry after the first.
pub open spec fn kv_pairs(entries: Seq<Entry>) -> Seq<(Seq<char>, Seq<char>)> {
    Seq::new(
        (entries.len() - 1) as nat,
        |i: int|
            (entries[i + 1].spec_name().unwrap(), entries[i + 1].value.spec_string().unwrap()),
    )
}

/// The value that the last pair named `key` gives.
pub fn lookup_pair<'a>(pairs: &Vec<(&'a str, &'a str)>, key: &str) -> (r: Option<&'a str>)
    ensures
        match r {
            Some(v) => lookup(pairs@.map_values(|p: (&str, &str)| (p.0@, p.1@)), key@) == Some(v@),
            None => lookup(pairs@.map_values(|p: (&str, &str)| (p.0@, p.1@)), key@).is_none(),
        },
{
    let ghost views = pairs@.map_values(|p: (&str, &str)| (p.0@, p.1@));
    let mut i: usize = pairs.len();
    assert(views.take(i as int) =~= views);
    while i > 0
        invariant
            i <= pairs@.len(),
            views == pairs@.map_values(|p: (&str, &str)| (p.0@, p.1@)),
            lookup(views, key@) == lookup(views.take(i as int), key@),
        decreases i,
    {
        let ghost cur = views.take(i as int);
        assert(cur.last() == views[i - 1]);
        assert(cur.drop_last() =~= views.take(i - 1));
        if str_eq(pairs[i - 1].0, key) {
            return Some(pairs[i - 1].1);
        }
        i -= 1;
    }
    None
}

/// What the settings of a `load-balance` section have said so far.
#[derive(Debug, Clone, Copy, PartialEq, Eq, Structural)]
pub struct LoadBalanceSettings {
    pub selection: Option<SelectionKind>,
    pub health: Option<HealthCheckKind>,
    pub discovery: Option<DiscoveryKind>,
    pub selector: RequestSelector,
}

impl LoadBalanceSettings {
    /// Nothing is said yet.
    pub open spec fn initial() -> Self {
        LoadBalanceSettings {
            selection: None,
            health: None,
            discovery: None,
            selector: RequestSelector::Null,
        }
    }

    /// The options that these settings amount to: what is not said is
    /// round-robin selection, no health check and static discovery.
    pub open spec fn options(self) -> UpstreamOptions {
        UpstreamOptions {
            selection: match self.selection {
                Some(s) => s,
                None => SelectionKind::RoundRobin,
            },
            selector: self.selector,
            health_checks: match self.health {
                Some(h) => h,
                None => HealthCheckKind::NoCheck,
            },
            discovery: match self.discovery {
                Some(d) => d,
                None => DiscoveryKind::Static,
            },
        }
    }
}

/// The settings after one more node of a `load-balance` section, or what is
/// wrong with the node.
///
/// `selection` names the selection; FNV and Ketama take a `key` argument
/// that names the selector. `health-check` takes `None`, `discovery` takes
/// `Static`. There is no other setting.
pub open spec fn load_balance_setting(state: LoadBalanceSettings, node: Node) -> Result<
    LoadBalanceSettings,
    Bad,
> {
    let entries = node.entries@;
    if node.name@ == "selection"@ {
        if entries.len() == 0 {
            Err(Bad { kind: BadKind::MissingArguments, span: node.span })
        } else if entries[0].value.spec_string().is_none() || selection_of(
            entries[0].value.spec_string().unwrap(),
        ).is_none() {
            Err(Bad { kind: BadKind::IncorrectArgument, span: node.span })
        } else if kv_args_error(entries).is_some() {
            Err(kv_args_error(entries).unwrap())
        } else {
            let sel = selection_of(entries[0].value.spec_string().unwrap()).unwrap();
            if sel == SelectionKind::RoundRobin || sel == SelectionKind::Random {
                Ok(LoadBalanceSettings { selection: Some(sel), ..state })
            } else {
                match lookup(kv_pairs(entries), "key"@) {
                    None => Err(Bad { kind: BadKind::SelectionRequiresKey, span: node.span }),
                    Some(key) => match selector_of(key) {
                        None => Err(Bad { kind: BadKind::UnknownKey, span: node.span }),
                        Some(selector) => Ok(
                            LoadBalanceSettings { selection: Some(sel), selector, ..state },
                        ),
                    },
                }
            }
        }
    } else if node.name@ == "health-check"@ {
        if one_str_arg(entries) == Some("None"@) {
            Ok(LoadBalanceSettings { health: Some(HealthCheckKind::NoCheck), ..state })
        } else {
            Err(Bad { kind: BadKind::IncorrectArgument, span: node.span })
        }
    } else if node.name@ == "discovery"@ {
        if one_str_arg(entries) == Some("Static"@) {
            Ok(LoadBalanceSettings { discovery: Some(DiscoveryKind::Static), ..state })
        } else {
            Err(Bad { kind: BadKind::IncorrectArgument, span: node.span })
        }
    } else {
        Err(Bad { kind: BadKind::UnknownSetting, span: node.span })
    }
}

/// The settings after all of `nodes`, taken in order, or what is wrong with
/// the first node that is wrong.
pub open spec fn load_balance_settings(nodes: Seq<Node>) -> Result<LoadBalanceSettings, Bad>
    decreases nodes.len(),
{
    if nodes.len() == 0 {
        Ok(LoadBalanceSettings::initial())
    } else {
        match load_balance_settings(nodes.drop_last()) {
            Err(e) => Err(e),
            Ok(state) => load_balance_setting(state, nodes.last()),
        }
    }
}

/// The upstream options that a `load-balance` node describes, or what is
/// wrong with it.
pub open spec fn load_balance_of(node: Node) -> Result<UpstreamOptions, Bad> {
    match node.children {
        None => Err(Bad { kind: BadKind::LoadBalanceNeedsChildren, span: node.span }),
        Some(children) => match load_balance_settings(children.nodes@) {
            Err(e) => Err(e),
            Ok(state) => Ok(state.options()),
        },
    }
}

proof fn lemma_load_balance_error(nodes: Seq<Node>, k: int)
    requires
        0 <= k <= nodes.len(),
        load_balance_settings(nodes.take(k)).is_err(),
    ensures
        load_balance_settings(nodes) == load_balance_settings(nodes.take(k)),
    decreases nodes.len(),
{
    if k == nodes.len() {
        assert(nodes.take(k) =~= nodes);
    } else {
        assert(nodes.drop_last().take(k) =~= nodes.take(k));
        lemma_load_balance_error(nodes.drop_last(), k);
    }
}

/// Reads one setting of a `load-balance` section.
pub fn extract_load_balance_setting(
    doc: &Document,
    state: LoadBalanceSettings,
    node: &Node,
) -> (r: Result<LoadBalanceSettings, Bad>)
    requires
        state.options().wf(),
    ensures
        r == load_balance_setting(state, *node),
        r matches Ok(next) ==> next.options().wf(),
{
    let name = node.name.as_str();
    if str_eq(name, "selection") {
        if node.entries.len() >= 1 {
            let known = match node.entries[0].value.as_string() {
                Some(text) => parse_selection(text).is_some(),
                None => false,
            };
            if !known {
                return Err(Bad { kind: BadKind::IncorrectArgument, span: node.span });
            }
        }
        let (first, kvs) = match extract_one_str_arg_with_kv_args(doc, node, name, &node.entries) {
            Ok(found) => found,
            Err(e) => {
                return Err(e);
            },
        };
        let sel = match parse_selection(first) {
            Some(sel) => sel,
            None => {
                return Err(Bad { kind: BadKind::IncorrectArgument, span: node.span });
            },
        };
        match sel {
            SelectionKind::RoundRobin | SelectionKind::Random => {
                // No key required, selection is random
                Ok(LoadBalanceSettings { selection: Some(sel), ..state })
            },
            SelectionKind::Fnv | SelectionKind::Ketama => {
                assert(kvs@.map_values(|p: (&str, &str)| (p.0@, p.1@)) =~= kv_pairs(node.entries@));
                let sel_ty = match lookup_pair(&kvs, "key") {
                    Some(key) => key,
                    None => {
                        return Err(Bad { kind: BadKind::SelectionRequiresKey, span: node.span });
                    },
                };
                match parse_selector(sel_ty) {
                    Some(selector) => Ok(
                        LoadBalanceSettings { selection: Some(sel), selector, ..state },
                    ),
                    None => Err(Bad { kind: BadKind::UnknownKey, span: node.span }),
                }
            },
        }
    } else if str_eq(name, "health-check") {
        match extract_one_str_arg(doc, node, name, &node.entries) {
            Ok(val) => {
                if str_eq(val, "None") {
                    Ok(LoadBalanceSettings { health: Some(HealthCheckKind::NoCheck), ..state })
                } else {
                    Err(Bad { kind: BadKind::IncorrectArgument, span: node.span })
                }
            },
            Err(e) => Err(e),
        }
    } else if str_eq(name, "discovery") {
        match extract_one_str_arg(doc, node, name, &node.entries) {
            Ok(val) => {
                if str_eq(val, "Static") {
                    Ok(LoadBalanceSettings { discovery: Some(DiscoveryKind::Static), ..state })
                } else {
                    Err(Bad { kind: BadKind::IncorrectArgument, span: node.span })
                }
            },
            Err(e) => Err(e),
        }
    } else {
        Err(Bad { kind: BadKind::UnknownSetting, span: node.span })
    }
}

/// Extracts the `load-balance` structure from the `connectors` section
pub fn extract_load_balance(doc: &Document, node: &Node) -> (r: Result<UpstreamOptions, Bad>)
    ensures
        r == load_balance_of(*node),
        r matches Ok(options) ==> options.wf(),
{
    let children = match &node.children {
        Some(c) => c,
        None => {
            return Err(Bad { kind: BadKind::LoadBalanceNeedsChildren, span: node.span });
        },
    };
    let mut state = LoadBalanceSettings {
        selection: None,
        health: None,
        discovery: None,
        selector: RequestSelector::Null,
    };
    let mut i: usize = 0;
    assert(children.nodes@.take(0) =~= Seq::empty());
    while i < children.nodes.len()
        invariant
            i <= children.nodes@.len(),
            node.children == Some(*children),
            state.options().wf(),
            load_balance_settings(children.nodes@.take(i as int)) == Ok::<LoadBalanceSettings, Bad>(
                state,
            ),
        decreases children.nodes@.len() - i,
    {
        proof {
            assert(children.nodes@.take(i + 1).drop_last() =~= children.nodes@.take(i as int));
            assert(children.nodes@.take(i + 1).last() == children.nodes@[i as int]);
        }
        match extract_load_balance_setting(doc, state, &children.nodes[i]) {
            Ok(next) => {
                state = next;
            },
            Err(e) => {
                proof {
                    lemma_load_balance_error(children.nodes@, i + 1);
                }
                return Err(e);
            },
        }
        i += 1;
    }
    assert(children.nodes@.take(i as int) =~= children.nodes@);
    Ok(
        UpstreamOptions {
            selection: match state.selection {
                Some(s) => s,
                None => SelectionKind::RoundRobin,
            },
            selector: state.selector,
            health_checks: match state.health {
                Some(h) => h,
                None => HealthCheckKind::NoCheck,
            },
            discovery: match state.discovery {
                Some(d) => d,
                None => DiscoveryKind::Static,
            },
        },
    )
}

/// The text of the setting `key` of a rate-limiting rule, or what is wrong
/// with it.
pub open spec fn rule_text(node: Node, key: Seq<char>) -> Result<Seq<char>, Bad> {
    match prop(node.entries@, key) {
        None => Err(Bad { kind: BadKind::MissingKey, span: node.span }),
        Some(entry) => match entry.value.spec_string() {
            None => Err(Bad { kind: BadKind::ShouldHaveStringValue, span: node.span }),
            Some(text) => Ok(text),
        },
    }
}

/// The number of the setting `key` of a rate-limiting rule, or what is wrong
/// with it.
pub open spec fn rule_number(node: Node, key: Seq<char>) -> Result<usize, Bad> {
    match prop(node.entries@, key) {
        None => Err(Bad { kind: BadKind::MissingKey, span: node.span }),
        Some(entry) => match entry.value.spec_usize() {
            None => Err(Bad { kind: BadKind::ShouldHavePositiveInteger, span: node.span }),
            Some(n) => Ok(n),
        },
    }
}

/// The rate-limiting rule that a `rule` node describes, or what is wrong
/// with the node.
///
/// Every rule has a `kind`, and numbers for `tokens-per-bucket`,
/// `refill-qty` and `refill-rate-ms`. The kind `source-ip` keeps one bucket
/// per client address; `uri` one bucket per path that matches `pattern`;
/// both take `max-buckets`, the number of buckets to keep. The kind
/// `uri-group` keeps one bucket for all paths that match `pattern`.
pub open spec fn rate_rule_of(threads_per_service: usize, node: Node) -> Result<RateRuleView, Bad> {
    if rule_text(node, "kind"@) is Err {
        Err(rule_text(node, "kind"@)->Err_0)
    } else if rule_text(node, "kind"@)->Ok_0 != "uri-group"@ && rule_number(
        node,
        "max-buckets"@,
    ) is Err {
        Err(rule_number(node, "max-buckets"@)->Err_0)
    } else if rule_number(node, "tokens-per-bucket"@) is Err {
        Err(rule_number(node, "tokens-per-bucket"@)->Err_0)
    } else if rule_number(node, "refill-qty"@) is Err {
        Err(rule_number(node, "refill-qty"@)->Err_0)
    } else if rule_number(node, "refill-rate-ms"@) is Err {
        Err(rule_number(node, "refill-rate-ms"@)->Err_0)
    } else {
        let kind = rule_text(node, "kind"@)->Ok_0;
        let single = SingleInstanceConfig {
            max_tokens_per_bucket: rule_number(node, "tokens-per-bucket"@)->Ok_0,
            refill_interval_millis: rule_number(node, "refill-rate-ms"@)->Ok_0,
            refill_qty: rule_number(node, "refill-qty"@)->Ok_0,
        };
        let multi = MultiRaterConfig {
            threads: threads_per_service,
            max_buckets: rule_number(node, "max-buckets"@)->Ok_0,
            max_tokens_per_bucket: single.max_tokens_per_bucket,
            refill_interval_millis: single.refill_interval_millis,
            refill_qty: single.refill_qty,
        };
        if kind == "source-ip"@ {
            Ok(RateRuleView::SourceIp { config: multi })
        } else if kind == "uri"@ || kind == "uri-group"@ {
            match rule_text(node, "pattern"@) {
                Err(e) => Err(e),
                Ok(pattern) => if !regex_accepts(pattern) {
                    Err(Bad { kind: BadKind::InvalidRegex, span: node.span })
                } else if kind == "uri"@ {
                    Ok(RateRuleView::Uri { pattern, config: multi })
                } else {
                    Ok(RateRuleView::UriGroup { pattern, config: single })
                },
            }
        } else {
            Err(Bad { kind: BadKind::UnknownRateLimitKind, span: node.span })
        }
    }
}

/// Reads the text of the setting `key` of a rate-limiting rule.
pub fn take_str<'a>(node: &'a Node, key: &str) -> (r: Result<&'a str, Bad>)
    ensures
        match r {
            Ok(text) => rule_text(*node, key@) == Ok::<Seq<char>, Bad>(text@),
            Err(e) => rule_text(*node, key@) == Err::<Seq<char>, Bad>(e),
        },
{
    match property(&node.entries, key) {
        None => Err(Bad { kind: BadKind::MissingKey, span: node.span }),
        Some(entry) => match entry.value.as_string() {
            None => Err(Bad { kind: BadKind::ShouldHaveStringValue, span: node.span }),
            Some(text) => Ok(text),
        },
    }
}

/// Reads the number of the setting `key` of a rate-limiting rule.
pub fn take_num(node: &Node, key: &str) -> (r: Result<usize, Bad>)
    ensures
        r == rule_number(*node, key@),
{
    match property(&node.entries, key) {
        None => Err(Bad { kind: BadKind::MissingKey, span: node.span }),
        Some(entry) => match entry.value.as_usize() {
            None => Err(Bad { kind: BadKind::ShouldHavePositiveInteger, span: node.span }),
            Some(n) => Ok(n),
        },
    }
}

/// Reads one rate-limiting rule.
pub fn make_rate_limiter(threads_per_service: usize, doc: &Document, node: &Node) -> (r: Result<
    AllRateConfig,
    Bad,
>)
    ensures
        match r {
            Ok(rule) => rate_rule_of(threads_per_service, *node) == Ok::<RateRuleView, Bad>(rule@),
            Err(e) => rate_rule_of(threads_per_service, *node) == Err::<RateRuleView, Bad>(e),
        },
{
    proof {
        reveal_strlit("uri-group");
        reveal_strlit("source-ip");
        reveal_strlit("uri");
        assert("uri-group"@[0] != "source-ip"@[0]);
        assert("uri-group"@.len() != "uri"@.len());
    }
    // mandatory/common fields
    let kind = match take_str(node, "kind") {
        Ok(v) => v,
        Err(e) => {
            return Err(e);
        },
    };
    let max_buckets = if str_eq(kind, "uri-group") {
        0
    } else {
        match take_num(node, "max-buckets") {
            Ok(v) => v,
            Err(e) => {
                return Err(e);
            },
        }
    };
    let tokens_per_bucket = match take_num(node, "tokens-per-bucket") {
        Ok(v) => v,
        Err(e) => {
            return Err(e);
        },
    };
    let refill_qty = match take_num(node, "refill-qty") {
        Ok(v) => v,
        Err(e) => {
            return Err(e);
        },
    };
    let refill_rate_ms = match take_num(node, "refill-rate-ms") {
        Ok(v) => v,
        Err(e) => {
            return Err(e);
        },
    };
    let rater_cfg = MultiRaterConfig {
        threads: threads_per_service,
        max_buckets,
        max_tokens_per_bucket: tokens_per_bucket,
        refill_interval_millis: refill_rate_ms,
        refill_qty,
    };
    if str_eq(kind, "source-ip") {
        Ok(AllRateConfig::Multi { kind: MultiRequestKeyKind::SourceIp, config: rater_cfg })
    } else if str_eq(kind, "uri") || str_eq(kind, "uri-group") {
        let pattern = match take_str(node, "pattern") {
            Ok(v) => v,
            Err(e) => {
                return Err(e);
            },
        };
        let pattern = match RegexShim::new(pattern) {
            Ok(p) => p,
            Err(_) => {
                return Err(Bad { kind: BadKind::InvalidRegex, span: node.span });
            },
        };
        if str_eq(kind, "uri") {
            Ok(AllRateConfig::Multi { kind: MultiRequestKeyKind::Uri { pattern }, config: rater_cfg })
        } else {
            Ok(
                AllRateConfig::Single {
                    kind: SingleRequestKeyKind::UriGroup { pattern },
                    config: SingleInstanceConfig {
                        max_tokens_per_bucket: tokens_per_bucket,
                        refill_interval_millis: refill_rate_ms,
                        refill_qty,
                    },
                },
            )
        }
    } else {
        Err(Bad { kind: BadKind::UnknownRateLimitKind, span: node.span })
    }
}

/// The rate limiting after one more node of a `rate-limiting` section, or
/// what is wrong with the node.
///
/// `timeout millis=N` sets the timeout, once. `rule` adds a rule. There is
/// no other node.
pub open spec fn rate_limiting_node(
    threads_per_service: usize,
    state: RateLimitingView,
    node: Node,
) -> Result<RateLimitingView, Bad> {
    let entries = node.entries@;
    if node.name@ == "timeout"@ {
        if str_value_error(entries).is_some() {
            Err(str_value_error(entries).unwrap())
        } else if !(entries.len() == 1 && entries[0].spec_name() == Some("millis"@)) {
            Err(Bad { kind: BadKind::MissingMillis, span: node.span })
        } else if entries[0].value.spec_usize().is_none() {
            Err(Bad { kind: BadKind::MillisNotNumber, span: node.span })
        } else if state.timeout_ms.is_some() {
            Err(Bad { kind: BadKind::TimeoutTwice, span: node.span })
        } else {
            Ok(RateLimitingView { timeout_ms: entries[0].value.spec_usize(), ..state })
        }
    } else if node.name@ == "rule"@ {
        if str_value_error(entries).is_some() {
            Err(str_value_error(entries).unwrap())
        } else {
            match rate_rule_of(threads_per_service, node) {
                Err(e) => Err(e),
                Ok(rule) => Ok(RateLimitingView { rules: state.rules.push(rule), ..state }),
            }
        }
    } else {
        Err(Bad { kind: BadKind::UnknownName, span: node.span })
    }
}

/// The rate limiting that the nodes of a `rate-limiting` section describe,
/// taken in order, or what is wrong with the first node that is wrong.
pub open spec fn rate_limiting_of(threads_per_service: usize, nodes: Seq<Node>) -> Result<
    RateLimitingView,
    Bad,
>
    decreases nodes.len(),
{
    if nodes.len() == 0 {
        Ok(RateLimitingView { timeout_ms: None, rules: Seq::empty() })
    } else {
        match rate_limiting_of(threads_per_service, nodes.drop_last()) {
            Err(e) => Err(e),
            Ok(state) => rate_limiting_node(threads_per_service, state, nodes.last()),
        }
    }
}

proof fn lemma_rate_limiting_error(threads_per_service: usize, nodes: Seq<Node>, k: int)
    requires
        0 <= k <= nodes.len(),
        rate_limiting_of(threads_per_service, nodes.take(k)).is_err(),
    ensures
        rate_limiting_of(threads_per_service, nodes) == rate_limiting_of(
            threads_per_service,
            nodes.take(k),
        ),
    decreases nodes.len(),
{
    if k == nodes.len() {
        assert(nodes.take(k) =~= nodes);
    } else {
        assert(nodes.drop_last().take(k) =~= nodes.take(k));
        lemma_rate_limiting_error(threads_per_service, nodes.drop_last(), k);
    }
}

/// Reads the `rate-limiting` section of a service.
pub fn extract_rate_limiting(threads_per_service: usize, doc: &Document, section: &Document) -> (r:
    Result<RateLimitingConfig, Bad>)
    ensures
        match r {
            Ok(rl) => rate_limiting_of(threads_per_service, section.nodes@) == Ok::<
                RateLimitingView,
                Bad,
            >(rl@),
            Err(e) => rate_limiting_of(threads_per_service, section.nodes@) == Err::<
                RateLimitingView,
                Bad,
            >(e),
        },
{
    let mut rl = RateLimitingConfig { timeout_ms: None, rules: Vec::new() };
    let mut i: usize = 0;
    assert(section.nodes@.take(0) =~= Seq::empty());
    assert(rl@.rules =~= Seq::empty());
    while i < section.nodes.len()
        invariant
            i <= section.nodes@.len(),
            rate_limiting_of(threads_per_service, section.nodes@.take(i as int)) == Ok::<
                RateLimitingView,
                Bad,
            >(rl@),
        decreases section.nodes@.len() - i,
    {
        let node = &section.nodes[i];
        let ghost before = rl@;
        proof {
            assert(section.nodes@.take(i + 1).drop_last() =~= section.nodes@.take(i as int));
            assert(section.nodes@.take(i + 1).last() == section.nodes@[i as int]);
        }
        if str_eq(node.name.as_str(), "timeout") {
            let vals = match str_value_args(doc, &node.entries) {
                Ok(v) => v,
                Err(e) => {
                    proof {
                        lemma_rate_limiting_error(threads_per_service, section.nodes@, i + 1);
                    }
                    return Err(e);
                },
            };
            if !(vals.len() == 1 && str_eq(vals[0].0, "millis")) {
                proof {
                    lemma_rate_limiting_error(threads_per_service, section.nodes@, i + 1);
                }
                return Err(Bad { kind: BadKind::MissingMillis, span: node.span });
            }
            let millis = match vals[0].1.value.as_usize() {
                Some(m) => m,
                None => {
                    proof {
                        lemma_rate_limiting_error(threads_per_service, section.nodes@, i + 1);
                    }
                    return Err(Bad { kind: BadKind::MillisNotNumber, span: node.span });
                },
            };
            if rl.timeout_ms.is_some() {
                proof {
                    lemma_rate_limiting_error(threads_per_service, section.nodes@, i + 1);
                }
                return Err(Bad { kind: BadKind::TimeoutTwice, span: node.span });
            }
            rl.timeout_ms = Some(millis);
        } else if str_eq(node.name.as_str(), "rule") {
            match str_value_args(doc, &node.entries) {
                Ok(_) => {},
                Err(e) => {
                    proof {
                        lemma_rate_limiting_error(threads_per_service, section.nodes@, i + 1);
                    }
                    return Err(e);
                },
            }
            match make_rate_limiter(threads_per_service, doc, node) {
                Ok(rule) => {
                    rl.rules.push(rule);
                    assert(rl@.rules =~= before.rules.push(rule@));
                },
                Err(e) => {
                    proof {
                        lemma_rate_limiting_error(threads_per_service, section.nodes@, i + 1);
                    }
                    return Err(e);
                },
            }
        } else {
            proof {
                lemma_rate_limiting_error(threads_per_service, section.nodes@, i + 1);
            }
            return Err(Bad { kind: BadKind::UnknownName, span: node.span });
        }
        i += 1;
    }
    assert(section.nodes@.take(i as int) =~= section.nodes@);
    Ok(rl)
}

/// What each of `nodes` reads as under `read`, in order, or what is wrong
/// with the first node that is wrong.
pub open spec fn try_map<V>(nodes: Seq<Node>, read: spec_fn(Node) -> Result<V, Bad>) -> Result<
    Seq<V>,
    Bad,
>
    decreases nodes.len(),
{
    if nodes.len() == 0 {
        Ok(Seq::empty())
    } else {
        match try_map(nodes.drop_last(), read) {
            Err(e) => Err(e),
            Ok(items) => match read(nodes.last()) {
                Ok(item) => Ok(items.push(item)),
                Err(e) => Err(e),
            },
        }
    }
}

proof fn lemma_try_map_error<V>(nodes: Seq<Node>, read: spec_fn(Node) -> Result<V, Bad>, k: int)
    requires
        0 <= k <= nodes.len(),
        try_map(nodes.take(k), read).is_err(),
    ensures
        try_map(nodes, read) == try_map(nodes.take(k), read),
    decreases nodes.len(),
{
    if k == nodes.len() {
        assert(nodes.take(k) =~= nodes);
    } else {
        assert(nodes.drop_last().take(k) =~= nodes.take(k));
        lemma_try_map_error(nodes.drop_last(), read, k);
    }
}

/// The name and value of every entry.
pub open spec fn pairs_of(entries: Seq<Entry>) -> Seq<(Seq<char>, Seq<char>)> {
    Seq::new(
        entries.len(),
        |i: int| (entries[i].spec_name().unwrap(), entries[i].value.spec_string().unwrap()),
    )
}

/// The settings of the filter that a `filter` node describes, or what is
/// wrong with the node.
pub open spec fn filter_of(node: Node) -> Result<Seq<(Seq<char>, Seq<char>)>, Bad> {
    if node.name@ != "filter"@ {
        Err(Bad { kind: BadKind::InvalidFilterRule, span: node.span })
    } else if str_str_error(node.entries@).is_some() {
        Err(str_str_error(node.entries@).unwrap())
    } else {
        Ok(pairs_of(node.entries@))
    }
}

/// Collects all the filters, where the node name must be "filter", and the rest of the args
/// are collected as settings
///
/// ```kdl
/// upstream-request {
///     filter kind="remove-header-key-regex" pattern=".*SECRET.*"
///     filter kind="remove-header-key-regex" pattern=".*secret.*"
///     filter kind="upsert-header" key="x-proxy-friend" value="river"
/// }
/// ```
///
/// creates something like:
///
/// ```json
/// [
///     { kind: "remove-header-key-regex", pattern: ".*SECRET.*" },
///     { kind: "remove-header-key-regex", pattern: ".*secret.*" },
///     { kind: "upsert-header", key: "x-proxy-friend", value: "river" }
/// ]
/// ```
pub fn collect_filters(doc: &Document, node: &Document) -> (r: Result<Vec<Settings>, Bad>)
    ensures
        match r {
            Ok(filters) => try_map(node.nodes@, |n: Node| filter_of(n)) == Ok::<
                Seq<Seq<(Seq<char>, Seq<char>)>>,
                Bad,
            >(filters@.map_values(|s: Settings| s@)),
            Err(e) => try_map(node.nodes@, |n: Node| filter_of(n)) == Err::<
                Seq<Seq<(Seq<char>, Seq<char>)>>,
                Bad,
            >(e),
        },
{
    let ghost read = |n: Node| filter_of(n);
    let mut fout: Vec<Settings> = Vec::new();
    let mut i: usize = 0;
    assert(node.nodes@.take(0) =~= Seq::empty());
    assert(fout@.map_values(|s: Settings| s@) =~= Seq::empty());
    while i < node.nodes.len()
        invariant
            i <= node.nodes@.len(),
            read == |n: Node| filter_of(n),
            try_map(node.nodes@.take(i as int), read) == Ok::<
                Seq<Seq<(Seq<char>, Seq<char>)>>,
                Bad,
            >(fout@.map_values(|s: Settings| s@)),
        decreases node.nodes@.len() - i,
    {
        let filter = &node.nodes[i];
        let ghost before = fout@.map_values(|s: Settings| s@);
        proof {
            assert(node.nodes@.take(i + 1).drop_last() =~= node.nodes@.take(i as int));
            assert(node.nodes@.take(i + 1).last() == node.nodes@[i as int]);
        }
        if !str_eq(filter.name.as_str(), "filter") {
            proof {
                lemma_try_map_error(node.nodes@, read, i + 1);
            }
            return Err(Bad { kind: BadKind::InvalidFilterRule, span: filter.span });
        }
        let args = match str_str_args(doc, &filter.entries) {
            Ok(a) => a,
            Err(e) => {
                proof {
                    lemma_try_map_error(node.nodes@, read, i + 1);
                }
                return Err(e);
            },
        };
        let mut entries: Vec<(String, String)> = Vec::new();
        let mut k: usize = 0;
        while k < args.len()
            invariant
                k <= args@.len(),
                entries@.len() == k,
                forall|j: int|
                    0 <= j < k ==> (#[trigger] entries@[j]).0@ == args@[j].0@ && entries@[j].1@
                        == args@[j].1@,
            decreases args@.len() - k,
        {
            entries.push((String::from_str(args[k].0), String::from_str(args[k].1)));
            k += 1;
        }
        let settings = Settings { entries };
        assert(settings@ =~= pairs_of(filter.entries@));
        fout.push(settings);
        assert(fout@.map_values(|s: Settings| s@) =~= before.push(settings@));
        i += 1;
    }
    assert(node.nodes@.take(i as int) =~= node.nodes@);
    Ok(fout)
}

/// The listeners that the `listeners` section of a service describes, or
/// what is wrong with it. A service has at least one listener.
pub open spec fn listeners_of(service: Document) -> Result<Seq<ListenerView>, Bad> {
    match child_doc(service, "listeners"@) {
        Err(e) => Err(e),
        Ok(section) => if section.nodes@.len() == 0 {
            Err(Bad { kind: BadKind::NonzeroListenersRequired, span: section.span })
        } else {
            try_map(section.nodes@, |n: Node| listener_of(n))
        },
    }
}

/// Reads the `listeners` section of a service.
pub fn extract_listeners(doc: &Document, service: &Document) -> (r: Result<
    Vec<ListenerConfig>,
    Bad,
>)
    ensures
        match r {
            Ok(listeners) => listeners_of(*service) == Ok::<Seq<ListenerView>, Bad>(
                listeners@.map_values(|l: ListenerConfig| l@),
            ) && listeners@.len() > 0 && forall|i: int|
                0 <= i < listeners@.len() ==> (#[trigger] listeners@[i])@.wf(),
            Err(e) => listeners_of(*service) == Err::<Seq<ListenerView>, Bad>(e),
        },
{
    let listener_node = match required_child_doc(doc, service, "listeners") {
        Ok(n) => n,
        Err(e) => {
            return Err(e);
        },
    };
    if listener_node.nodes.len() == 0 {
        return Err(Bad { kind: BadKind::NonzeroListenersRequired, span: listener_node.span });
    }
    let ghost read = |n: Node| listener_of(n);
    let mut list_cfgs: Vec<ListenerConfig> = Vec::new();
    let mut i: usize = 0;
    assert(listener_node.nodes@.take(0) =~= Seq::empty());
    assert(list_cfgs@.map_values(|l: ListenerConfig| l@) =~= Seq::empty());
    while i < listener_node.nodes.len()
        invariant
            i <= listener_node.nodes@.len(),
            list_cfgs@.len() == i,
            listener_node.nodes@.len() > 0,
            child_doc(*service, "listeners"@) == Ok::<Document, Bad>(*listener_node),
            read == |n: Node| listener_of(n),
            forall|j: int| 0 <= j < i ==> (#[trigger] list_cfgs@[j])@.wf(),
            try_map(listener_node.nodes@.take(i as int), read) == Ok::<Seq<ListenerView>, Bad>(
                list_cfgs@.map_values(|l: ListenerConfig| l@),
            ),
        decreases listener_node.nodes@.len() - i,
    {
        let ghost before = list_cfgs@.map_values(|l: ListenerConfig| l@);
        proof {
            assert(listener_node.nodes@.take(i + 1).drop_last() =~= listener_node.nodes@.take(
                i as int,
            ));
            assert(listener_node.nodes@.take(i + 1).last() == listener_node.nodes@[i as int]);
        }
        match extract_listener(doc, &listener_node.nodes[i]) {
            Ok(listener) => {
                list_cfgs.push(listener);
                assert(list_cfgs@.map_values(|l: ListenerConfig| l@) =~= before.push(listener@));
            },
            Err(e) => {
                proof {
                    lemma_try_map_error(listener_node.nodes@, read, i + 1);
                }
                return Err(e);
            },
        }
        i += 1;
    }
    assert(listener_node.nodes@.take(i as int) =~= listener_node.nodes@);
    Ok(list_cfgs)
}

/// What the nodes of a `connectors` section have said so far.
pub struct ConnectorsView {
    pub upstreams: Seq<UpstreamPeerView>,
    pub load_balance: Option<UpstreamOptions>,
}

/// The connectors after one more node of a `connectors` section, or what is
/// wrong with the node. A node named `load-balance` gives the upstream
/// options, once; every other node is an upstream.
pub open spec fn connectors_node(state: ConnectorsView, node: Node) -> Result<ConnectorsView, Bad> {
    if node.name@ == "load-balance"@ {
        if state.load_balance.is_some() {
            Err(Bad { kind: BadKind::DuplicateLoadBalance, span: node.span })
        } else {
            match load_balance_of(node) {
                Err(e) => Err(e),
                Ok(options) => Ok(ConnectorsView { load_balance: Some(options), ..state }),
            }
        }
    } else {
        match connector_of(node) {
            Err(e) => Err(e),
            Ok(peer) => Ok(ConnectorsView { upstreams: state.upstreams.push(peer), ..state }),
        }
    }
}

/// The connectors after all of `nodes`, taken in order, or what is wrong
/// with the first node that is wrong.
pub open spec fn connectors_fold(nodes: Seq<Node>) -> Result<ConnectorsView, Bad>
    decreases nodes.len(),
{
    if nodes.len() == 0 {
        Ok(ConnectorsView { upstreams: Seq::empty(), load_balance: None })
    } else {
        match connectors_fold(nodes.drop_last()) {
            Err(e) => Err(e),
            Ok(state) => connectors_node(state, nodes.last()),
        }
    }
}

/// The upstreams and upstream options that the `connectors` section of a
/// service describes, or what is wrong with it. A service has at least one
/// upstream.
pub open spec fn connectors_of(service: Document) -> Result<ConnectorsView, Bad> {
    match child_doc(service, "connectors"@) {
        Err(e) => Err(e),
        Ok(section) => match connectors_fold(section.nodes@) {
            Err(e) => Err(e),
            Ok(state) => if state.upstreams.len() == 0 {
                Err(Bad { kind: BadKind::NoConnectors, span: section.span })
            } else {
                Ok(state)
            },
        },
    }
}

proof fn lemma_connectors_error(nodes: Seq<Node>, k: int)
    requires
        0 <= k <= nodes.len(),
        connectors_fold(nodes.take(k)).is_err(),
    ensures
        connectors_fold(nodes) == connectors_fold(nodes.take(k)),
    decreases nodes.len(),
{
    if k == nodes.len() {
        assert(nodes.take(k) =~= nodes);
    } else {
        assert(nodes.drop_last().take(k) =~= nodes.take(k));
        lemma_connectors_error(nodes.drop_last(), k);
    }
}

/// Reads the `connectors` section of a service.
pub fn extract_connectors(doc: &Document, service: &Document) -> (r: Result<
    (Vec<UpstreamPeer>, Option<UpstreamOptions>),
    Bad,
>)
    ensures
        match r {
            Ok((upstreams, load_balance)) => connectors_of(*service) is Ok && connectors_of(
                *service,
            )->Ok_0.upstreams == upstreams@.map_values(|p: UpstreamPeer| p@) && connectors_of(
                *service,
            )->Ok_0.load_balance == load_balance && upstreams@.len() > 0 && (forall|i: int|
                0 <= i < upstreams@.len() ==> (#[trigger] upstreams@[i]).wf()) && (
            load_balance matches Some(options) ==> options.wf()),
            Err(e) => connectors_of(*service) == Err::<ConnectorsView, Bad>(e),
        },
{
    let conn_node = match required_child_doc(doc, service, "connectors") {
        Ok(n) => n,
        Err(e) => {
            return Err(e);
        },
    };
    let mut conn_cfgs: Vec<UpstreamPeer> = Vec::new();
    let mut load_balance: Option<UpstreamOptions> = None;
    let mut i: usize = 0;
    assert(conn_node.nodes@.take(0) =~= Seq::empty());
    assert(conn_cfgs@.map_values(|p: UpstreamPeer| p@) =~= Seq::empty());
    while i < conn_node.nodes.len()
        invariant
            i <= conn_node.nodes@.len(),
            child_doc(*service, "connectors"@) == Ok::<Document, Bad>(*conn_node),
            forall|j: int| 0 <= j < conn_cfgs@.len() ==> (#[trigger] conn_cfgs@[j]).wf(),
            load_balance matches Some(options) ==> options.wf(),
            connectors_fold(conn_node.nodes@.take(i as int)) is Ok,
            connectors_fold(conn_node.nodes@.take(i as int))->Ok_0.upstreams
                == conn_cfgs@.map_values(|p: UpstreamPeer| p@),
            connectors_fold(conn_node.nodes@.take(i as int))->Ok_0.load_balance == load_balance,
        decreases conn_node.nodes@.len() - i,
    {
        let node = &conn_node.nodes[i];
        let ghost before = conn_cfgs@.map_values(|p: UpstreamPeer| p@);
        proof {
            assert(conn_node.nodes@.take(i + 1).drop_last() =~= conn_node.nodes@.take(i as int));
            assert(conn_node.nodes@.take(i + 1).last() == conn_node.nodes@[i as int]);
        }
        if str_eq(node.name.as_str(), "load-balance") {
            if load_balance.is_some() {
                proof {
                    lemma_connectors_error(conn_node.nodes@, i + 1);
                }
                return Err(Bad { kind: BadKind::DuplicateLoadBalance, span: node.span });
            }
            match extract_load_balance(doc, node) {
                Ok(options) => {
                    load_balance = Some(options);
                },
                Err(e) => {
                    proof {
                        lemma_connectors_error(conn_node.nodes@, i + 1);
                    }
                    return Err(e);
                },
            }
        } else {
            match extract_connector(doc, node) {
                Ok(conn) => {
                    conn_cfgs.push(conn);
                    assert(conn_cfgs@.map_values(|p: UpstreamPeer| p@) =~= before.push(conn@));
                },
                Err(e) => {
                    proof {
                        lemma_connectors_error(conn_node.nodes@, i + 1);
                    }
                    return Err(e);
                },
            }
        }
        i += 1;
    }
    assert(conn_node.nodes@.take(i as int) =~= conn_node.nodes@);
    if conn_cfgs.len() == 0 {
        return Err(Bad { kind: BadKind::NoConnectors, span: conn_node.span });
    }
    Ok((conn_cfgs, load_balance))
}

/// The filters of the section `name` of a `path-control` block; none where
/// there is no such section.
pub open spec fn filters_section(pc: Document, name: Seq<char>) -> Result<
    Seq<Seq<(Seq<char>, Seq<char>)>>,
    Bad,
> {
    match child_doc(pc, name) {
        Err(_) => Ok(Seq::empty()),
        Ok(section) => try_map(section.nodes@, |n: Node| filter_of(n)),
    }
}

/// The path control that a service describes, or what is wrong with it. A
/// service without a `path-control` block has no filters.
pub open spec fn path_control_of(service: Document) -> Result<PathControlView, Bad> {
    match child_doc(service, "path-control"@) {
        Err(_) => Ok(
            PathControlView {
                request_filters: Seq::empty(),
                upstream_request_filters: Seq::empty(),
                upstream_response_filters: Seq::empty(),
            },
        ),
        Ok(pc) => match filters_section(pc, "request-filters"@) {
            Err(e) => Err(e),
            Ok(request_filters) => match filters_section(pc, "upstream-request"@) {
                Err(e) => Err(e),
                Ok(upstream_request_filters) => match filters_section(pc, "upstream-response"@) {
                    Err(e) => Err(e),
                    Ok(upstream_response_filters) => Ok(
                        PathControlView {
                            request_filters,
                            upstream_request_filters,
                            upstream_response_filters,
                        },
                    ),
                },
            },
        },
    }
}

/// Reads the section `name` of a `path-control` block.
pub fn extract_filters_section(doc: &Document, pc: &Document, name: &str) -> (r: Result<
    Vec<Settings>,
    Bad,
>)
    ensures
        match r {
            Ok(filters) => filters_section(*pc, name@) == Ok::<
                Seq<Seq<(Seq<char>, Seq<char>)>>,
                Bad,
            >(filters@.map_values(|s: Settings| s@)),
            Err(e) => filters_section(*pc, name@) == Err::<Seq<Seq<(Seq<char>, Seq<char>)>>, Bad>(
                e,
            ),
        },
{
    match optional_child_doc(doc, pc, name) {
        Some(section) => collect_filters(doc, section),
        None => {
            let none: Vec<Settings> = Vec::new();
            assert(none@.map_values(|s: Settings| s@) =~= Seq::empty());
            Ok(none)
        },
    }
}

/// Reads the `path-control` block of a service.
pub fn extract_path_control(doc: &Document, service: &Document) -> (r: Result<PathControl, Bad>)
    ensures
        match r {
            Ok(pc) => path_control_of(*service) == Ok::<PathControlView, Bad>(pc@),
            Err(e) => path_control_of(*service) == Err::<PathControlView, Bad>(e),
        },
{
    match optional_child_doc(doc, service, "path-control") {
        None => {
            let pc = PathControl {
                request_filters: Vec::new(),
                upstream_request_filters: Vec::new(),
                upstream_response_filters: Vec::new(),
            };
            assert(pc@.request_filters =~= Seq::empty());
            assert(pc@.upstream_request_filters =~= Seq::empty());
            assert(pc@.upstream_response_filters =~= Seq::empty());
            Ok(pc)
        },
        Some(pc_node) => {
            // request-filters (optional)
            let request_filters = match extract_filters_section(doc, pc_node, "request-filters") {
                Ok(f) => f,
                Err(e) => {
                    return Err(e);
                },
            };
            // upstream-request (optional)
            let upstream_request_filters = match extract_filters_section(
                doc,
                pc_node,
                "upstream-request",
            ) {
                Ok(f) => f,
                Err(e) => {
                    return Err(e);
                },
            };
            // upstream-response (optional)
            let upstream_response_filters = match extract_filters_section(
                doc,
                pc_node,
                "upstream-response",
            ) {
                Ok(f) => f,
                Err(e) => {
                    return Err(e);
                },
            };
            Ok(PathControl { request_filters, upstream_request_filters, upstream_response_filters })
        },
    }
}

/// The proxy service that a block of the `services` section describes, or
/// what is wrong with it. The listeners are read first, then the
/// connectors, the path control and the rate limiting.
pub open spec fn service_of(threads_per_service: usize, name: Seq<char>, service: Document) -> Result<
    ProxyConfigView,
    Bad,
> {
    match listeners_of(service) {
        Err(e) => Err(e),
        Ok(listeners) => match connectors_of(service) {
            Err(e) => Err(e),
            Ok(connectors) => match path_control_of(service) {
                Err(e) => Err(e),
                Ok(path_control) => match (match child_doc(service, "rate-limiting"@) {
                    Err(_) => Ok(RateLimitingView { timeout_ms: None, rules: Seq::empty() }),
                    Ok(section) => rate_limiting_of(threads_per_service, section.nodes@),
                }) {
                    Err(e) => Err(e),
                    Ok(rate_limiting) => Ok(
                        ProxyConfigView {
                            name,
                            listeners,
                            upstream_options: match connectors.load_balance {
                                Some(options) => options,
                                None => LoadBalanceSettings::initial().options(),
                            },
                            upstreams: connectors.upstreams,
                            path_control,
                            rate_limiting,
                        },
                    ),
                },
            },
        },
    }
}

/// Extracts a single service from the `services` block
pub fn extract_service(threads_per_service: usize, doc: &Document, name: &str, node: &Document) -> (r:
    Result<ProxyConfig, Bad>)
    ensures
        match r {
            Ok(proxy) => service_of(threads_per_service, name@, *node) == Ok::<
                ProxyConfigView,
                Bad,
            >(proxy@) && proxy.listeners@.len() > 0 && proxy.upstreams@.len() > 0
                && proxy.upstream_options.wf(),
            Err(e) => service_of(threads_per_service, name@, *node) == Err::<ProxyConfigView, Bad>(
                e,
            ),
        },
{
    // Listeners
    let list_cfgs = match extract_listeners(doc, node) {
        Ok(l) => l,
        Err(e) => {
            return Err(e);
        },
    };
    // Connectors
    let (conn_cfgs, load_balance) = match extract_connectors(doc, node) {
        Ok(c) => c,
        Err(e) => {
            return Err(e);
        },
    };
    // Path Control (optional)
    let pc = match extract_path_control(doc, node) {
        Ok(p) => p,
        Err(e) => {
            return Err(e);
        },
    };
    // Rate limiting
    let rl = match optional_child_doc(doc, node, "rate-limiting") {
        Some(rl_node) => match extract_rate_limiting(threads_per_service, doc, rl_node) {
            Ok(rl) => rl,
            Err(e) => {
                return Err(e);
            },
        },
        None => {
            let rl = RateLimitingConfig { timeout_ms: None, rules: Vec::new() };
            assert(rl@.rules =~= Seq::empty());
            rl
        },
    };
    Ok(
        ProxyConfig {
            name: String::from_str(name),
            listeners: list_cfgs,
            upstreams: conn_cfgs,
            path_control: pc,
            upstream_options: match load_balance {
                Some(options) => options,
                None => UpstreamOptions::default(),
            },
            rate_limiting: rl,
        },
    )
}

/// The position of the last of `nodes` named `name`.
pub open spec fn last_named(nodes: Seq<Node>, name: Seq<char>) -> Option<int>
    decreases nodes.len(),
{
    if nodes.len() == 0 {
        None
    } else if nodes.last().name@ == name {
        Some(nodes.len() - 1)
    } else {
        last_named(nodes.drop_last(), name)
    }
}

/// The last of `nodes` named `name`.
pub fn find_last<'a>(nodes: &'a Vec<Node>, name: &str) -> (r: Option<&'a Node>)
    ensures
        match r {
            Some(node) => last_named(nodes@, name@) matches Some(i) && 0 <= i < nodes@.len()
                && *node == nodes@[i],
            None => last_named(nodes@, name@).is_none(),
        },
{
    let mut i: usize = nodes.len();
    assert(nodes@.take(i as int) =~= nodes@);
    while i > 0
        invariant
            i <= nodes@.len(),
            last_named(nodes@, name@) == last_named(nodes@.take(i as int), name@),
        decreases i,
    {
        let ghost cur = nodes@.take(i as int);
        assert(cur.last() == nodes@[i - 1]);
        assert(cur.drop_last() =~= nodes@.take(i - 1));
        if str_eq(nodes[i - 1].name.as_str(), name) {
            return Some(&nodes[i - 1]);
        }
        i -= 1;
    }
    None
}

/// The file server that a block of the `services` section describes, or
/// what is wrong with it. The last `base-path` of the `file-server` section
/// gives the base path.
pub open spec fn file_server_of(name: Seq<char>, service: Document) -> Result<
    FileServerConfigView,
    Bad,
> {
    match listeners_of(service) {
        Err(e) => Err(e),
        Ok(listeners) => match child_doc(service, "file-server"@) {
            Err(e) => Err(e),
            Ok(section) => match last_named(section.nodes@, "base-path"@) {
                None => Ok(FileServerConfigView { name, listeners, base_path: None }),
                Some(i) => match one_str_arg(section.nodes@[i].entries@) {
                    None => Err(
                        Bad { kind: BadKind::IncorrectArgument, span: section.nodes@[i].span },
                    ),
                    Some(path) => Ok(
                        FileServerConfigView { name, listeners, base_path: Some(path) },
                    ),
                },
            },
        },
    }
}

/// Extracts a single file server from the `services` block
pub fn extract_file_server(doc: &Document, name: &str, node: &Document) -> (r: Result<
    FileServerConfig,
    Bad,
>)
    ensures
        match r {
            Ok(fs) => file_server_of(name@, *node) == Ok::<FileServerConfigView, Bad>(fs@)
                && fs.listeners@.len() > 0,
            Err(e) => file_server_of(name@, *node) == Err::<FileServerConfigView, Bad>(e),
        },
{
    // Listeners
    let list_cfgs = match extract_listeners(doc, node) {
        Ok(l) => l,
        Err(e) => {
            return Err(e);
        },
    };
    // Base Path
    let fs_node = match required_child_doc(doc, node, "file-server") {
        Ok(n) => n,
        Err(e) => {
            return Err(e);
        },
    };
    let base_path = match find_last(&fs_node.nodes, "base-path") {
        Some(bpnode) => match extract_one_str_arg(doc, bpnode, "base-path", &bpnode.entries) {
            Ok(val) => Some(String::from_str(val)),
            Err(e) => {
                return Err(e);
            },
        },
        None => None,
    };
    Ok(FileServerConfig { name: String::from_str(name), listeners: list_cfgs, base_path })
}

/// The position of the first of `nodes` that has the name of a node before it.
pub open spec fn first_duplicate(nodes: Seq<Node>) -> Option<int>
    decreases nodes.len(),
{
    if nodes.len() == 0 {
        None
    } else {
        match first_duplicate(nodes.drop_last()) {
            Some(i) => Some(i),
            None => if position_named(nodes.drop_last(), nodes.last().name@).is_some() {
                Some(nodes.len() - 1)
            } else {
                None
            },
        }
    }
}

proof fn lemma_first_duplicate_prefix(nodes: Seq<Node>, k: int)
    requires
        0 <= k <= nodes.len(),
        first_duplicate(nodes.take(k)).is_some(),
    ensures
        first_duplicate(nodes) == first_duplicate(nodes.take(k)),
    decreases nodes.len(),
{
    if k == nodes.len() {
        assert(nodes.take(k) =~= nodes);
    } else {
        assert(nodes.drop_last().take(k) =~= nodes.take(k));
        lemma_first_duplicate_prefix(nodes.drop_last(), k);
    }
}

/// A section that a proxy service may have.
pub open spec fn is_proxy_section(name: Seq<char>) -> bool {
    name == "listeners"@ || name == "connectors"@ || name == "path-control"@ || name
        == "rate-limiting"@
}

/// A section that a file server may have.
pub open spec fn is_file_server_section(name: Seq<char>) -> bool {
    name == "listeners"@ || name == "file-server"@
}

/// What a block of the `services` section is.
#[derive(Debug, Clone, Copy, PartialEq, Eq, Structural)]
pub enum ServiceKind {
    /// A proxy: every section is one that a proxy may have.
    Proxy,
    /// A file server: every section is one that a file server may have.
    FileServer,
}

/// What the block of a service is, judged by the names of its sections, or
/// what is wrong with them: a name that occurs twice, or a name that fits
/// neither a proxy nor a file server.
pub open spec fn service_kind_of(service: Document) -> Result<ServiceKind, Bad> {
    match first_duplicate(service.nodes@) {
        Some(i) => Err(Bad { kind: BadKind::DuplicateSection, span: service.nodes@[i].span }),
        None => if forall|i: int|
            0 <= i < service.nodes@.len() ==> is_proxy_section(
                (#[trigger] service.nodes@[i]).name@,
            ) {
            Ok(ServiceKind::Proxy)
        } else if forall|i: int|
            0 <= i < service.nodes@.len() ==> is_file_server_section(
                (#[trigger] service.nodes@[i]).name@,
            ) {
            Ok(ServiceKind::FileServer)
        } else {
            Err(Bad { kind: BadKind::UnknownSection, span: service.span })
        },
    }
}

/// Whether one of the first `upto` of `nodes` is named `name`.
fn named_before(nodes: &Vec<Node>, upto: usize, name: &str) -> (r: bool)
    requires
        upto <= nodes@.len(),
    ensures
        r == position_named(nodes@.take(upto as int), name@).is_some(),
{
    proof {
        lemma_position_named(nodes@.take(upto as int), name@);
    }
    let mut i: usize = 0;
    while i < upto
        invariant
            i <= upto <= nodes@.len(),
            forall|j: int| 0 <= j < i ==> (#[trigger] nodes@.take(upto as int)[j]).name@ != name@,
        decreases upto - i,
    {
        assert(nodes@.take(upto as int)[i as int] == nodes@[i as int]);
        if str_eq(nodes[i].name.as_str(), name) {
            proof {
                lemma_position_named(nodes@.take(upto as int), name@);
            }
            return true;
        }
        i += 1;
    }
    proof {
        lemma_position_named(nodes@.take(upto as int), name@);
    }
    false
}

/// Judges the block of a service by the names of its sections.
pub fn service_kind(service: &Document) -> (r: Result<ServiceKind, Bad>)
    ensures
        r == service_kind_of(*service),
{
    // First, visit all of the children nodes, and make sure each child
    // node only appears once. This is used to detect duplicate sections
    let mut j: usize = 0;
    assert(service.nodes@.take(0) =~= Seq::empty());
    while j < service.nodes.len()
        invariant
            j <= service.nodes@.len(),
            first_duplicate(service.nodes@.take(j as int)).is_none(),
        decreases service.nodes@.len() - j,
    {
        proof {
            assert(service.nodes@.take(j + 1).drop_last() =~= service.nodes@.take(j as int));
            assert(service.nodes@.take(j + 1).last() == service.nodes@[j as int]);
        }
        if named_before(&service.nodes, j, service.nodes[j].name.as_str()) {
            proof {
                lemma_first_duplicate_prefix(service.nodes@, j + 1);
            }
            return Err(Bad { kind: BadKind::DuplicateSection, span: service.nodes[j].span });
        }
        j += 1;
    }
    assert(service.nodes@.take(j as int) =~= service.nodes@);
    // Now: what do we do with this node?
    let mut proxy = true;
    let mut file_server = true;
    let mut i: usize = 0;
    while i < service.nodes.len()
        invariant
            i <= service.nodes@.len(),
            proxy == (forall|k: int|
                0 <= k < i ==> is_proxy_section((#[trigger] service.nodes@[k]).name@)),
            file_server == (forall|k: int|
                0 <= k < i ==> is_file_server_section((#[trigger] service.nodes@[k]).name@)),
        decreases service.nodes@.len() - i,
    {
        let name = service.nodes[i].name.as_str();
        let in_proxy = str_eq(name, "listeners") || str_eq(name, "connectors") || str_eq(
            name,
            "path-control",
        ) || str_eq(name, "rate-limiting");
        let in_file_server = str_eq(name, "listeners") || str_eq(name, "file-server");
        assert(in_proxy == is_proxy_section(service.nodes@[i as int].name@));
        assert(in_file_server == is_file_server_section(service.nodes@[i as int].name@));
        proxy = proxy && in_proxy;
        file_server = file_server && in_file_server;
        i += 1;
    }
    if proxy {
        // If the contained nodes are a subset of proxy node config fields,
        // then treat this section as a proxy node
        Ok(ServiceKind::Proxy)
    } else if file_server {
        // If the contained nodes are a subset of the file server config
        // fields, then treat this section as a file server node
        Ok(ServiceKind::FileServer)
    } else {
        // Otherwise, we're not sure what this node is supposed to be!
        Err(Bad { kind: BadKind::UnknownSection, span: service.span })
    }
}

/// The services that a configuration describes.
pub struct ServicesView {
    pub proxies: Seq<ProxyConfigView>,
    pub file_servers: Seq<FileServerConfigView>,
}

/// The services after one more block of the `services` section, or what is
/// wrong with the block.
pub open spec fn services_node(threads_per_service: usize, state: ServicesView, node: Node) -> Result<
    ServicesView,
    Bad,
> {
    let service = node.children.unwrap();
    match service_kind_of(service) {
        Err(e) => Err(e),
        Ok(ServiceKind::Proxy) => match service_of(threads_per_service, node.name@, service) {
            Err(e) => Err(e),
            Ok(proxy) => Ok(ServicesView { proxies: state.proxies.push(proxy), ..state }),
        },
        Ok(ServiceKind::FileServer) => match file_server_of(node.name@, service) {
            Err(e) => Err(e),
            Ok(fs) => Ok(ServicesView { file_servers: state.file_servers.push(fs), ..state }),
        },
    }
}

/// The services after all of `nodes`, taken in order, or what is wrong with
/// the first block that is wrong.
pub open spec fn services_fold(threads_per_service: usize, nodes: Seq<Node>) -> Result<
    ServicesView,
    Bad,
>
    decreases nodes.len(),
{
    if nodes.len() == 0 {
        Ok(ServicesView { proxies: Seq::empty(), file_servers: Seq::empty() })
    } else {
        match services_fold(threads_per_service, nodes.drop_last()) {
            Err(e) => Err(e),
            Ok(state) => services_node(threads_per_service, state, nodes.last()),
        }
    }
}

/// The services that the `services` section of a document describes, or
/// what is wrong with it. Every node of the section is a block, and there is
/// at least one service.
pub open spec fn services_of(threads_per_service: usize, doc: Document) -> Result<ServicesView, Bad> {
    match child_doc(doc, "services"@) {
        Err(e) => Err(e),
        Ok(section) => match first_without_children(section.nodes@) {
            Some(i) => Err(
                Bad { kind: BadKind::ExpectedNestedBlock, span: section.nodes@[i].span },
            ),
            None => match services_fold(threads_per_service, section.nodes@) {
                Err(e) => Err(e),
                Ok(state) => if state.proxies.len() == 0 && state.file_servers.len() == 0 {
                    Err(Bad { kind: BadKind::NoServices, span: section.span })
                } else {
                    Ok(state)
                },
            },
        },
    }
}

proof fn lemma_services_error(threads_per_service: usize, nodes: Seq<Node>, k: int)
    requires
        0 <= k <= nodes.len(),
        services_fold(threads_per_service, nodes.take(k)).is_err(),
    ensures
        services_fold(threads_per_service, nodes) == services_fold(
            threads_per_service,
            nodes.take(k),
        ),
    decreases nodes.len(),
{
    if k == nodes.len() {
        assert(nodes.take(k) =~= nodes);
    } else {
        assert(nodes.drop_last().take(k) =~= nodes.take(k));
        lemma_services_error(threads_per_service, nodes.drop_last(), k);
    }
}

/// Extract all services from the top level document
pub fn extract_services(threads_per_service: usize, doc: &Document) -> (r: Result<
    (Vec<ProxyConfig>, Vec<FileServerConfig>),
    Bad,
>)
    ensures
        match r {
            Ok((proxies, file_servers)) => services_of(threads_per_service, *doc) is Ok
                && services_of(threads_per_service, *doc)->Ok_0.proxies == proxies@.map_values(
                |p: ProxyConfig| p@,
            ) && services_of(threads_per_service, *doc)->Ok_0.file_servers
                == file_servers@.map_values(|f: FileServerConfig| f@) && proxies@.len()
                + file_servers@.len() > 0,
            Err(e) => services_of(threads_per_service, *doc) == Err::<ServicesView, Bad>(e),
        },
{
    let service_node = match required_child_doc(doc, doc, "services") {
        Ok(n) => n,
        Err(e) => {
            return Err(e);
        },
    };
    let services = match wildcard_argless_child_docs(doc, service_node) {
        Ok(s) => s,
        Err(e) => {
            return Err(e);
        },
    };
    let mut proxies: Vec<ProxyConfig> = Vec::new();
    let mut file_servers: Vec<FileServerConfig> = Vec::new();
    let mut i: usize = 0;
    assert(service_node.nodes@.take(0) =~= Seq::empty());
    assert(proxies@.map_values(|p: ProxyConfig| p@) =~= Seq::empty());
    assert(file_servers@.map_values(|f: FileServerConfig| f@) =~= Seq::empty());
    while i < services.len()
        invariant
            i <= services@.len(),
            services@.len() == service_node.nodes@.len(),
            child_doc(*doc, "services"@) == Ok::<Document, Bad>(*service_node),
            first_without_children(service_node.nodes@).is_none(),
            forall|j: int|
                0 <= j < services@.len() ==> (#[trigger] services@[j]).0@
                    == service_node.nodes@[j].name@ && service_node.nodes@[j].children == Some(
                    *services@[j].1,
                ),
            services_fold(threads_per_service, service_node.nodes@.take(i as int)) is Ok,
            services_fold(threads_per_service, service_node.nodes@.take(i as int))->Ok_0.proxies
                == proxies@.map_values(|p: ProxyConfig| p@),
            services_fold(
                threads_per_service,
                service_node.nodes@.take(i as int),
            )->Ok_0.file_servers == file_servers@.map_values(|f: FileServerConfig| f@),
        decreases services@.len() - i,
    {
        let name = services[i].0;
        let service = services[i].1;
        let ghost proxies_before = proxies@.map_values(|p: ProxyConfig| p@);
        let ghost servers_before = file_servers@.map_values(|f: FileServerConfig| f@);
        proof {
            assert(service_node.nodes@.take(i + 1).drop_last() =~= service_node.nodes@.take(
                i as int,
            ));
            assert(service_node.nodes@.take(i + 1).last() == service_node.nodes@[i as int]);
        }
        let kind = match service_kind(service) {
            Ok(k) => k,
            Err(e) => {
                proof {
                    lemma_services_error(threads_per_service, service_node.nodes@, i + 1);
                }
                return Err(e);
            },
        };
        match kind {
            ServiceKind::Proxy => {
                match extract_service(threads_per_service, doc, name, service) {
                    Ok(proxy) => {
                        proxies.push(proxy);
                        assert(proxies@.map_values(|p: ProxyConfig| p@) =~= proxies_before.push(
                            proxy@,
                        ));
                    },
                    Err(e) => {
                        proof {
                            lemma_services_error(threads_per_service, service_node.nodes@, i + 1);
                        }
                        return Err(e);
                    },
                }
            },
            ServiceKind::FileServer => {
                match extract_file_server(doc, name, service) {
                    Ok(fs) => {
                        file_servers.push(fs);
                        assert(file_servers@.map_values(|f: FileServerConfig| f@)
                            =~= servers_before.push(fs@));
                    },
                    Err(e) => {
                        proof {
                            lemma_services_error(threads_per_service, service_node.nodes@, i + 1);
                        }
                        return Err(e);
                    },
                }
            },
        }
        i += 1;
    }
    assert(service_node.nodes@.take(i as int) =~= service_node.nodes@);
    if proxies.len() == 0 && file_servers.len() == 0 {
        return Err(Bad { kind: BadKind::NoServices, span: service_node.span });
    }
    Ok((proxies, file_servers))
}

/// The number of worker threads that a `system` section names: eight where
/// it names none.
pub open spec fn threads_per_service_of(sys: Document) -> Result<usize, Bad> {
    match position_named(sys.nodes@, "threads-per-service"@) {
        None => Ok(8),
        Some(i) => {
            let tps = sys.nodes@[i];
            if tps.entries@.len() != 1 {
                Err(Bad { kind: BadKind::ThreadsNotOneEntry, span: tps.span })
            } else {
                match tps.entries@[0].value.spec_i64() {
                    None => Err(
                        Bad { kind: BadKind::ThreadsNotInteger, span: tps.entries@[0].span },
                    ),
                    Some(val) => if 0 <= val && val <= usize::MAX {
                        Ok(val as usize)
                    } else {
                        Err(Bad { kind: BadKind::ThreadsNotUsize, span: tps.entries@[0].span })
                    },
                }
            }
        },
    }
}

/// Reads the number of worker threads from the `system` section.
pub fn extract_threads_per_service(doc: &Document, sys: &Document) -> (r: Result<usize, Bad>)
    ensures
        r == threads_per_service_of(*sys),
{
    let tps = match sys.get("threads-per-service") {
        Some(n) => n,
        None => {
            return Ok(8);
        },
    };
    if tps.entries.len() != 1 {
        return Err(Bad { kind: BadKind::ThreadsNotOneEntry, span: tps.span });
    }
    let tps_node = &tps.entries[0];
    let val = match tps_node.value.as_i64() {
        Some(v) => v,
        None => {
            return Err(Bad { kind: BadKind::ThreadsNotInteger, span: tps_node.span });
        },
    };
    match tps_node.value.as_usize() {
        Some(n) => Ok(n),
        None => Err(Bad { kind: BadKind::ThreadsNotUsize, span: tps_node.span }),
    }
}

/// The process settings of a configuration.
#[derive(Debug, Clone, PartialEq, Eq)]
pub struct SystemData {
    pub threads_per_service: usize,
    pub daemonize: bool,
    pub upgrade_socket: Option<String>,
    pub pid_file: Option<String>,
}

/// What a `SystemData` holds.
pub struct SystemDataView {
    pub threads_per_service: usize,
    pub daemonize: bool,
    pub upgrade_socket: Option<Seq<char>>,
    pub pid_file: Option<Seq<char>>,
}

impl View for SystemData {
    type V = SystemDataView;

    open spec fn view(&self) -> SystemDataView {
        SystemDataView {
            threads_per_service: self.threads_per_service,
            daemonize: self.daemonize,
            upgrade_socket: opt_view(self.upgrade_socket),
            pid_file: opt_view(self.pid_file),
        }
    }
}

impl Default for SystemData {
    fn default() -> (r: Self)
        ensures
            r@ == (SystemDataView {
                threads_per_service: 8,
                daemonize: false,
                upgrade_socket: None,
                pid_file: None,
            }),
    {
        SystemData {
            threads_per_service: 8,
            daemonize: false,
            upgrade_socket: None,
            pid_file: None,
        }
    }
}

/// The path that the first node of `sys` named `name` gives, if there is
/// such a node, or what is wrong with the node.
pub open spec fn path_setting(sys: Document, name: Seq<char>) -> Result<Option<Seq<char>>, Bad> {
    match position_named(sys.nodes@, name) {
        None => Ok(None),
        Some(i) => match one_str_arg(sys.nodes@[i].entries@) {
            Some(path) => Ok(Some(path)),
            None => Err(Bad { kind: BadKind::IncorrectArgument, span: sys.nodes@[i].span }),
        },
    }
}

/// The process settings that the `system` section of a document gives, or
/// what is wrong with it. Without the section the defaults stand: eight
/// threads, no daemon, no upgrade socket and no pid file.
pub open spec fn system_data_of(doc: Document) -> Result<SystemDataView, Bad> {
    match child_doc(doc, "system"@) {
        Err(_) => Ok(
            SystemDataView {
                threads_per_service: 8,
                daemonize: false,
                upgrade_socket: None,
                pid_file: None,
            },
        ),
        Ok(sys) => match threads_per_service_of(sys) {
            Err(e) => Err(e),
            Ok(threads_per_service) => match (match position_named(sys.nodes@, "daemonize"@) {
                None => Ok(false),
                Some(i) => if sys.nodes@[i].entries@.len() == 1
                    && sys.nodes@[i].entries@[0].value.spec_bool().is_some() {
                    Ok(sys.nodes@[i].entries@[0].value.spec_bool().unwrap())
                } else {
                    Err(Bad { kind: BadKind::IncorrectArgument, span: sys.nodes@[i].span })
                },
            }) {
                Err(e) => Err(e),
                Ok(daemonize) => match path_setting(sys, "upgrade-socket"@) {
                    Err(e) => Err(e),
                    Ok(upgrade_socket) => match path_setting(sys, "pid-file"@) {
                        Err(e) => Err(e),
                        Ok(pid_file) => Ok(
                            SystemDataView {
                                threads_per_service,
                                daemonize,
                                upgrade_socket,
                                pid_file,
                            },
                        ),
                    },
                },
            },
        },
    }
}

/// Reads the path that the first node of `sys` named `name` gives.
pub fn extract_path_setting(doc: &Document, sys: &Document, name: &str) -> (r: Result<
    Option<String>,
    Bad,
>)
    ensures
        match r {
            Ok(path) => path_setting(*sys, name@) == Ok::<Option<Seq<char>>, Bad>(opt_view(path)),
            Err(e) => path_setting(*sys, name@) == Err::<Option<Seq<char>>, Bad>(e),
        },
{
    match sys.get(name) {
        Some(n) => match extract_one_str_arg(doc, n, name, &n.entries) {
            Ok(path) => Ok(Some(String::from_str(path))),
            Err(e) => Err(e),
        },
        None => Ok(None),
    }
}

/// Reads the `system` section of a document.
pub fn extract_system_data(doc: &Document) -> (r: Result<SystemData, Bad>)
    ensures
        match r {
            Ok(data) => system_data_of(*doc) == Ok::<SystemDataView, Bad>(data@),
            Err(e) => system_data_of(*doc) == Err::<SystemDataView, Bad>(e),
        },
{
    // Get the top level system doc
    let sys = match optional_child_doc(doc, doc, "system") {
        Some(sys) => sys,
        None => {
            return Ok(SystemData::default());
        },
    };
    let tps = match extract_threads_per_service(doc, sys) {
        Ok(t) => t,
        Err(e) => {
            return Err(e);
        },
    };
    let daemonize = match sys.get("daemonize") {
        Some(n) => match extract_one_bool_arg(doc, n, "daemonize", &n.entries) {
            Ok(b) => b,
            Err(e) => {
                return Err(e);
            },
        },
        None => false,
    };
    let upgrade_socket = match extract_path_setting(doc, sys, "upgrade-socket") {
        Ok(p) => p,
        Err(e) => {
            return Err(e);
        },
    };
    let pid_file = match extract_path_setting(doc, sys, "pid-file") {
        Ok(p) => p,
        Err(e) => {
            return Err(e);
        },
    };
    Ok(SystemData { threads_per_service: tps, daemonize, upgrade_socket, pid_file })
}

/// The configuration that a document describes, or what is wrong with the
/// document. The `system` section is read first, then the services.
pub open spec fn config_of(doc: Document) -> Result<ConfigView, Bad> {
    match system_data_of(doc) {
        Err(e) => Err(e),
        Ok(system) => match services_of(system.threads_per_service, doc) {
            Err(e) => Err(e),
            Ok(services) => Ok(
                ConfigView {
                    validate_configs: false,
                    threads_per_service: system.threads_per_service,
                    daemonize: system.daemonize,
                    pid_file: system.pid_file,
                    upgrade_socket: system.upgrade_socket,
                    upgrade: false,
                    basic_proxies: services.proxies,
                    file_servers: services.file_servers,
                },
            ),
        },
    }
}

impl Config {
    /// This is the primary interface for parsing the document.
    pub fn try_from(value: &Document) -> (r: Result<Config, Bad>)
        ensures
            match r {
                Ok(config) => config_of(*value) == Ok::<ConfigView, Bad>(config@),
                Err(e) => config_of(*value) == Err::<ConfigView, Bad>(e),
            },
    {
        let SystemData { threads_per_service, daemonize, upgrade_socket, pid_file } =
            match extract_system_data(value) {
            Ok(d) => d,
            Err(e) => {
                return Err(e);
            },
        };
        let (basic_proxies, file_servers) = match extract_services(threads_per_service, value) {
            Ok(s) => s,
            Err(e) => {
                return Err(e);
            },
        };
        Ok(
            Config {
                validate_configs: false,
                threads_per_service,
                daemonize,
                upgrade_socket,
                pid_file,
                upgrade: false,
                basic_proxies,
                file_servers,
            },
        )
    }
}

} // verus!

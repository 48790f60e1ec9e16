use river::config::internal::{
    Alpn, DiscoveryKind, HealthCheckKind, ListenerConfig, ListenerKind, PathControl, ProxyConfig,
    RateLimitingConfig, SelectionKind, TlsConfig, UpstreamOptions, UpstreamPeer,
};
use river::net::{ClientAddr, IpAddress, SocketAddress};
use river::proxy::load_balancing::Backend;
use river::proxy::phase::{Phase, PhaseResult};
use river::proxy::rate_limiting::multi::{MultiRaterConfig, MultiRequestKeyKind};
use river::proxy::rate_limiting::single::{SingleInstanceConfig, SingleRequestKeyKind};
use river::proxy::rate_limiting::{AllRateConfig, Outcome, RegexShim};
use river::proxy::request_filters::Decision;
use river::proxy::request_selector::RequestSelector;
use river::proxy::{
    any_outcome_declined, populate_listners, resolve_peer, river_proxy_service, ListenerBind, Modifiers, ProxyError,
    RiverProxyService,
};
use river::session::{Header, HeaderList, RequestHeader, ResponseHeader, Session};
use river::settings::Settings;

fn conf_settings(pairs: &[(&str, &str)]) -> Settings {
    Settings { entries: pairs.iter().map(|(k, v)| (k.to_string(), v.to_string())).collect() }
}

fn peer(last: u8, port: u16) -> UpstreamPeer {
    UpstreamPeer {
        address: SocketAddress { ip: IpAddress::V4(u32::from_be_bytes([127, 0, 0, last])), port },
        tls: false,
        sni: String::new(),
        alpn: Alpn::H1,
    }
}

fn plain_listener(addr: &str) -> ListenerConfig {
    ListenerConfig {
        source: ListenerKind::Tcp { addr: addr.to_string(), tls: None, offer_h2: false },
    }
}

fn base_conf() -> ProxyConfig {
    ProxyConfig {
        name: "Example".to_string(),
        listeners: vec![plain_listener("127.0.0.1:8080")],
        upstream_options: UpstreamOptions::default(),
        upstreams: vec![peer(1, 9000)],
        path_control: PathControl::default(),
        rate_limiting: RateLimitingConfig::default(),
    }
}

fn get(path: &str, from: Option<ClientAddr>, pairs: &[(&str, &str)]) -> Session {
    Session {
        client_addr: from,
        req_header: RequestHeader {
            method: "GET".to_string(),
            path: path.to_string(),
            query: None,
            headers: HeaderList {
                entries: pairs
                    .iter()
                    .map(|(n, v)| Header { name: n.to_string(), value: v.as_bytes().to_vec() })
                    .collect(),
            },
        },
    }
}

fn from_v4(a: u8, b: u8, c: u8, d: u8) -> Option<ClientAddr> {
    Some(ClientAddr::Inet(SocketAddress {
        ip: IpAddress::V4(u32::from_be_bytes([a, b, c, d])),
        port: 51000,
    }))
}

#[test]
fn passthrough_scenario() {
    let service = river_proxy_service(base_conf()).unwrap();
    assert_eq!(service.name, "Example");
    assert_eq!(service.listeners, vec![plain_listener("127.0.0.1:8080")]);
    let session = get("/x", from_v4(127, 0, 0, 1), &[("Accept", "*/*")]);
    let mut ctx = service.new_ctx();
    assert!(ctx.selector_buf.is_empty());

    assert_eq!(service.request_filter(&session, &mut ctx), Ok(Decision::Continue));
    assert_eq!(service.upstream_peer(&session, &mut ctx), Ok(&peer(1, 9000)));
    assert!(ctx.selector_buf.is_empty());

    let mut upstream_request = session.req_header.clone();
    assert_eq!(service.upstream_request_filter(&session, &mut upstream_request, &mut ctx), Ok(()));
    assert_eq!(upstream_request, session.req_header);

    let response = ResponseHeader {
        status: 200,
        headers: HeaderList {
            entries: vec![Header { name: "Server".to_string(), value: b"backend".to_vec() }],
        },
    };
    let mut downstream_response = response.clone();
    service.upstream_response_filter(&session, &mut downstream_response, &mut ctx);
    assert_eq!(downstream_response, response);
}

#[test]
fn phases_run_in_order() {
    let mut phase = Phase::first();
    let mut seen = vec![];
    while phase != Phase::Done {
        seen.push(phase);
        phase = phase.next(PhaseResult::Continue);
    }
    assert_eq!(
        seen,
        vec![
            Phase::RequestFilter,
            Phase::UpstreamPeer,
            Phase::UpstreamRequestFilter,
            Phase::UpstreamResponseFilter
        ]
    );
    assert_eq!(Phase::Done.next(PhaseResult::Continue), Phase::Done);
    for at in seen {
        assert_eq!(at.next(PhaseResult::Complete), Phase::Done);
        assert_eq!(at.next(PhaseResult::Failed), Phase::Done);
    }
    assert_eq!(PhaseResult::of_decision(&Ok(Decision::Continue)), PhaseResult::Continue);
    assert_eq!(PhaseResult::of_decision(&Ok(Decision::Respond(401))), PhaseResult::Complete);
    assert_eq!(PhaseResult::of_decision(&Err(ProxyError::NoBackend)), PhaseResult::Failed);
}

#[test]
fn modifiers_run_in_configuration_order() {
    let remove = conf_settings(&[("kind", "remove-header-key-regex"), ("pattern", "^x-tag$")]);
    let upsert = conf_settings(&[("kind", "upsert-header"), ("key", "x-tag"), ("value", "1")]);

    let mut conf = base_conf();
    conf.path_control.upstream_request_filters = vec![remove.clone(), upsert.clone()];
    conf.path_control.upstream_response_filters = vec![upsert.clone(), remove.clone()];
    let service = RiverProxyService::from_basic_conf(conf).unwrap();
    let session = get("/", None, &[]);
    let mut ctx = service.new_ctx();

    // Removed first, then set: the header is there.
    let mut request = get("/", None, &[("x-tag", "0"), ("a", "b")]).req_header;
    service.upstream_request_filter(&session, &mut request, &mut ctx).unwrap();
    assert_eq!(request.headers, get("/", None, &[("a", "b"), ("x-tag", "1")]).req_header.headers);

    // Set first, then removed: the header is gone.
    let mut response =
        ResponseHeader { status: 204, headers: get("/", None, &[("x-tag", "0")]).req_header.headers };
    service.upstream_response_filter(&session, &mut response, &mut ctx);
    assert_eq!(response.headers, HeaderList { entries: vec![] });
    assert_eq!(response.status, 204);
}

#[test]
fn request_filters_run_in_order_and_short_circuit() {
    let mut conf = base_conf();
    conf.path_control.request_filters = vec![
        conf_settings(&[("kind", "block-cidr-range"), ("addrs", "10.0.0.0/8")]),
        conf_settings(&[("kind", "block-cidr-range"), ("addrs", "192.168.0.0/16")]),
    ];
    let service = RiverProxyService::from_basic_conf(conf).unwrap();
    let mut ctx = service.new_ctx();
    assert_eq!(
        service.request_filter(&get("/", from_v4(10, 1, 2, 3), &[]), &mut ctx),
        Ok(Decision::Respond(401))
    );
    assert_eq!(
        service.request_filter(&get("/", from_v4(192, 168, 1, 1), &[]), &mut ctx),
        Ok(Decision::Respond(401))
    );
    assert_eq!(
        service.request_filter(&get("/", from_v4(8, 8, 8, 8), &[]), &mut ctx),
        Ok(Decision::Continue)
    );
    assert_eq!(
        service.run_request_filters(&get("/", Some(ClientAddr::Unix("(unnamed)".to_string())), &[]), &mut ctx),
        Ok(Decision::Continue)
    );
}

#[test]
fn a_declined_ticket_answers_with_429() {
    let mut conf = base_conf();
    conf.rate_limiting.rules = vec![
        AllRateConfig::Single {
            kind: SingleRequestKeyKind::UriGroup { pattern: RegexShim::new("^/limited").unwrap() },
            config: SingleInstanceConfig {
                max_tokens_per_bucket: 2,
                refill_interval_millis: 60_000,
                refill_qty: 1,
            },
        },
        AllRateConfig::Multi {
            kind: MultiRequestKeyKind::SourceIp,
            config: MultiRaterConfig {
                threads: 1,
                max_buckets: 16,
                max_tokens_per_bucket: 3,
                refill_interval_millis: 60_000,
                refill_qty: 1,
            },
        },
    ];
    conf.path_control.request_filters =
        vec![conf_settings(&[("kind", "block-cidr-range"), ("addrs", "10.0.0.0/8")])];
    let service = RiverProxyService::from_basic_conf(conf).unwrap();
    assert_eq!(service.rate_limiters.request_filter_stage_single.len(), 1);
    assert_eq!(service.rate_limiters.request_filter_stage_multi.len(), 1);
    let mut ctx = service.new_ctx();

    // No rule applies to a Unix-domain client on another path: never 429.
    for _ in 0..10 {
        assert_eq!(
            service.request_filter(&get("/free", Some(ClientAddr::Unix("(unnamed)".to_string())), &[]), &mut ctx),
            Ok(Decision::Continue)
        );
    }
    // The single bucket holds two tokens.
    let limited = get("/limited/a", Some(ClientAddr::Unix("(unnamed)".to_string())), &[]);
    assert_eq!(service.request_filter(&limited, &mut ctx), Ok(Decision::Continue));
    assert_eq!(service.request_filter(&limited, &mut ctx), Ok(Decision::Continue));
    assert_eq!(service.request_filter(&limited, &mut ctx), Ok(Decision::Respond(429)));
    // The bucket of one source address holds three tokens; another address has its own.
    let a = get("/free", from_v4(8, 8, 8, 8), &[]);
    let b = get("/free", from_v4(8, 8, 4, 4), &[]);
    for _ in 0..3 {
        assert_eq!(service.request_filter(&a, &mut ctx), Ok(Decision::Continue));
    }
    assert_eq!(service.request_filter(&a, &mut ctx), Ok(Decision::Respond(429)));
    assert_eq!(service.request_filter(&b, &mut ctx), Ok(Decision::Continue));
    // Rate limits come before the filters: a blocked address with tokens gets 401.
    assert_eq!(
        service.request_filter(&get("/free", from_v4(10, 0, 0, 1), &[]), &mut ctx),
        Ok(Decision::Respond(401))
    );
}

#[test]
fn the_request_phase_follows_the_limiters_answer() {
    let mut conf = base_conf();
    conf.path_control.request_filters =
        vec![conf_settings(&[("kind", "block-cidr-range"), ("addrs", "10.0.0.0/8")])];
    let service = RiverProxyService::from_basic_conf(conf).unwrap();
    let mut ctx = service.new_ctx();
    let blocked = get("/", from_v4(10, 0, 0, 1), &[]);
    let free = get("/", from_v4(9, 0, 0, 1), &[]);
    assert_eq!(service.decide_request(true, &free, &mut ctx), Ok(Decision::Respond(429)));
    assert_eq!(service.decide_request(true, &blocked, &mut ctx), Ok(Decision::Respond(429)));
    assert_eq!(service.decide_request(false, &free, &mut ctx), Ok(Decision::Continue));
    assert_eq!(service.decide_request(false, &blocked, &mut ctx), Ok(Decision::Respond(401)));
    // Without rules nothing is asked, and nothing is ever declined.
    assert!(!service.rate_limiters.any_declined(&free));
    assert_eq!(service.rate_limiters.try_tickets(&free), vec![]);
}

#[test]
fn limiters_are_asked_in_order_up_to_the_first_decline() {
    let bucket = |tokens: usize| SingleInstanceConfig {
        max_tokens_per_bucket: tokens,
        refill_interval_millis: 60_000,
        refill_qty: 1,
    };
    let group =
        |pattern: &str| SingleRequestKeyKind::UriGroup { pattern: RegexShim::new(pattern).unwrap() };
    let mut conf = base_conf();
    conf.rate_limiting.rules = vec![
        AllRateConfig::Multi {
            kind: MultiRequestKeyKind::SourceIp,
            config: MultiRaterConfig {
                threads: 1,
                max_buckets: 16,
                max_tokens_per_bucket: 5,
                refill_interval_millis: 60_000,
                refill_qty: 1,
            },
        },
        AllRateConfig::Single { kind: group("^/a"), config: bucket(3) },
        AllRateConfig::Single { kind: group("^/never"), config: bucket(0) },
        AllRateConfig::Single { kind: group("^/a/b"), config: bucket(1) },
    ];
    let service = RiverProxyService::from_basic_conf(conf).unwrap();
    let limiters = &service.rate_limiters;
    let both = get("/a/b", from_v4(1, 1, 1, 1), &[]);
    // Singles first, in their order, then the source address: all approve.
    assert_eq!(
        limiters.try_tickets(&both),
        vec![Outcome::Approved, Outcome::Approved, Outcome::Approved]
    );
    // The second single is empty now: it declines, and the source address is not asked.
    assert_eq!(limiters.try_tickets(&both), vec![Outcome::Approved, Outcome::Declined]);
    // From a Unix-domain socket only the first single applies; it has one token left.
    let unix = get("/a", Some(ClientAddr::Unix("(unnamed)".to_string())), &[]);
    assert_eq!(limiters.try_tickets(&unix), vec![Outcome::Approved]);
    assert_eq!(limiters.try_tickets(&unix), vec![Outcome::Declined]);
    // The source address was asked once: four of its five tokens are left.
    let other = get("/other", from_v4(1, 1, 1, 1), &[]);
    for _ in 0..4 {
        assert_eq!(limiters.try_tickets(&other), vec![Outcome::Approved]);
    }
    assert_eq!(limiters.try_tickets(&other), vec![Outcome::Declined]);
    assert!(limiters.any_declined(&other));
    assert!(any_outcome_declined(&vec![Outcome::Approved, Outcome::Declined]));
    assert!(!any_outcome_declined(&vec![Outcome::Approved, Outcome::Approved]));
    assert!(!any_outcome_declined(&vec![]));
}

#[test]
fn upstream_peer_follows_the_selection() {
    let mut conf = base_conf();
    conf.upstreams = vec![peer(1, 9000), peer(2, 9000), peer(3, 9000)];
    conf.upstream_options = UpstreamOptions {
        selection: SelectionKind::Ketama,
        selector: RequestSelector::UriPath,
        health_checks: HealthCheckKind::NoCheck,
        discovery: DiscoveryKind::Static,
    };
    let service = river_proxy_service(conf).unwrap();
    let mut ctx = service.new_ctx();
    let first = service.upstream_peer(&get("/user/42", None, &[]), &mut ctx).cloned();
    assert!(ctx.selector_buf.is_empty());
    let second = service.upstream_peer(&get("/user/42", from_v4(1, 2, 3, 4), &[]), &mut ctx).cloned();
    assert!(first.is_ok());
    assert_eq!(first, second);

    let mut fnv = base_conf();
    fnv.upstreams = vec![peer(1, 9000), peer(2, 9000), peer(3, 9000)];
    fnv.upstream_options.selection = SelectionKind::Fnv;
    fnv.upstream_options.selector = RequestSelector::UriPath;
    let service = river_proxy_service(fnv).unwrap();
    // FNV-1a of "/user/42" is 0 modulo 3, of "/user/43" it is 1.
    assert_eq!(service.upstream_peer(&get("/user/42", None, &[]), &mut ctx), Ok(&peer(1, 9000)));
    assert_eq!(service.upstream_peer(&get("/user/43", None, &[]), &mut ctx), Ok(&peer(2, 9000)));

    let mut rr = base_conf();
    rr.upstreams = vec![peer(1, 9000), peer(2, 9000)];
    let service = river_proxy_service(rr).unwrap();
    let session = get("/", None, &[]);
    assert_eq!(service.upstream_peer(&session, &mut ctx), Ok(&peer(1, 9000)));
    assert_eq!(service.upstream_peer(&session, &mut ctx), Ok(&peer(2, 9000)));
    assert_eq!(service.upstream_peer(&session, &mut ctx), Ok(&peer(1, 9000)));
}

#[test]
fn selection_errors() {
    assert_eq!(resolve_peer(None), Err(ProxyError::NoBackend));
    let bare = Backend { addr: peer(1, 1).address, peer: None };
    assert_eq!(resolve_peer(Some(&bare)), Err(ProxyError::BackendMetaMissing));
    let full = Backend { addr: peer(1, 1).address, peer: Some(peer(1, 1)) };
    assert_eq!(resolve_peer(Some(&full)), Ok(&peer(1, 1)));
}

#[test]
fn service_construction_errors() {
    let mut conf = base_conf();
    conf.upstreams = vec![];
    assert_eq!(river_proxy_service(conf).err(), Some(ProxyError::NoUpstreams));

    for selection in [SelectionKind::Fnv, SelectionKind::Ketama] {
        let mut conf = base_conf();
        conf.upstream_options.selection = selection;
        assert_eq!(river_proxy_service(conf).err(), Some(ProxyError::MissingSelector));
    }

    let mut conf = base_conf();
    conf.rate_limiting.rules = vec![AllRateConfig::Multi {
        kind: MultiRequestKeyKind::SourceIp,
        config: MultiRaterConfig {
            threads: 1,
            max_buckets: 1,
            max_tokens_per_bucket: 1,
            refill_interval_millis: 0,
            refill_qty: 1,
        },
    }];
    assert_eq!(river_proxy_service(conf).err(), Some(ProxyError::InvalidRateLimit));

    let mut conf = base_conf();
    conf.path_control.upstream_request_filters = vec![conf_settings(&[("kind", "block-cidr-range")])];
    assert_eq!(river_proxy_service(conf).err(), Some(ProxyError::UnknownFilterKind));

    // The first list with an error gives the error.
    let control = PathControl {
        request_filters: vec![conf_settings(&[("kind", "block-cidr-range"), ("addrs", "x")])],
        upstream_request_filters: vec![conf_settings(&[("kind", "upsert-header")])],
        upstream_response_filters: vec![conf_settings(&[])],
    };
    assert_eq!(Modifiers::from_conf(&control).err(), Some(ProxyError::InvalidCidr));
    let control = PathControl {
        request_filters: vec![],
        upstream_request_filters: vec![
            conf_settings(&[("kind", "upsert-header"), ("key", "a"), ("value", "b")]),
            conf_settings(&[("kind", "url-rewrite"), ("regex", "("), ("rewrite", "")]),
        ],
        upstream_response_filters: vec![conf_settings(&[])],
    };
    assert_eq!(Modifiers::from_conf(&control).err(), Some(ProxyError::InvalidRegex));
    let built = Modifiers::from_conf(&PathControl {
        request_filters: vec![],
        upstream_request_filters: vec![],
        upstream_response_filters: vec![conf_settings(&[
            ("kind", "upsert-header"),
            ("key", "a"),
            ("value", "b"),
        ])],
    })
    .unwrap();
    assert_eq!(built.request_filters.len(), 0);
    assert_eq!(built.upstream_request_filters.len(), 0);
    assert_eq!(built.upstream_response_filters.len(), 1);
}

#[test]
fn listeners_become_bind_specifications() {
    let binds = populate_listners(vec![
        plain_listener("0.0.0.0:8080"),
        ListenerConfig {
            source: ListenerKind::Tcp {
                addr: "0.0.0.0:4443".to_string(),
                tls: Some(TlsConfig {
                    cert_path: "./assets/test.crt".to_string(),
                    key_path: "./assets/test.key".to_string(),
                }),
                offer_h2: true,
            },
        },
        ListenerConfig { source: ListenerKind::Uds("/tmp/river.sock".to_string()) },
    ]);
    assert_eq!(
        binds,
        vec![
            ListenerBind::Tcp { addr: "0.0.0.0:8080".to_string() },
            ListenerBind::Tls {
                addr: "0.0.0.0:4443".to_string(),
                cert_path: "./assets/test.crt".to_string(),
                key_path: "./assets/test.key".to_string(),
                offer_h2: true,
            },
            ListenerBind::Uds { path: "/tmp/river.sock".to_string() },
        ]
    );
    assert_eq!(populate_listners(vec![]), vec![]);
}

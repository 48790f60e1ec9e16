use river::config::internal::{
    Alpn, Config, DiscoveryKind, FileServerConfig, HealthCheckKind, ListenerConfig, ListenerKind,
    ProxyConfig, RateLimitingConfig, SelectionKind, TlsConfig, UpstreamOptions, UpstreamPeer,
};
use river::config::kdl::document::{property, Document, Entry, Node, SourceSpan, Value};
use river::config::kdl::utils::{
    data_nodes, extract_one_bool_arg, extract_one_str_arg, extract_one_str_arg_with_kv_args,
    map_ensure_bool, map_ensure_str, optional_child_doc, required_child_doc, str_str_args,
    str_value_args, wildcard_argless_child_docs,
};
use river::config::kdl::{
    collect_filters, extract_connector, extract_listener, extract_load_balance,
    extract_system_data, extract_threads_per_service, make_rate_limiter, service_kind, Bad,
    BadKind, ServiceKind, SystemData,
};
use river::net::{IpAddress, SocketAddress};
use river::proxy::rate_limiting::multi::{MultiRaterConfig, MultiRequestKeyKind};
use river::proxy::rate_limiting::single::{SingleInstanceConfig, SingleRequestKeyKind};
use river::proxy::rate_limiting::{AllRateConfig, RegexShim};
use river::proxy::request_selector::RequestSelector;
use river::settings::Settings;

fn span_of(offset: usize, len: usize) -> SourceSpan {
    SourceSpan { offset, len }
}

fn value_of(value: &kdl::KdlValue) -> Value {
    match value {
        kdl::KdlValue::RawString(s) | kdl::KdlValue::String(s) => Value::String(s.clone()),
        kdl::KdlValue::Base2(i)
        | kdl::KdlValue::Base8(i)
        | kdl::KdlValue::Base10(i)
        | kdl::KdlValue::Base16(i) => Value::Integer(*i),
        kdl::KdlValue::Base10Float(_) => Value::Float,
        kdl::KdlValue::Bool(b) => Value::Bool(*b),
        kdl::KdlValue::Null => Value::Null,
    }
}

fn document_of(doc: &kdl::KdlDocument) -> Document {
    Document {
        nodes: doc
            .nodes()
            .iter()
            .map(|node| Node {
                name: node.name().value().to_string(),
                entries: node
                    .entries()
                    .iter()
                    .map(|entry| Entry {
                        name: entry.name().map(|n| n.value().to_string()),
                        value: value_of(entry.value()),
                        span: span_of(entry.span().offset(), entry.span().len()),
                    })
                    .collect(),
                children: node.children().map(document_of),
                span: span_of(node.span().offset(), node.span().len()),
            })
            .collect(),
        span: span_of(doc.span().offset(), doc.span().len()),
    }
}

fn parse(text: &str) -> Document {
    let doc: kdl::KdlDocument = text.parse().unwrap_or_else(|e| {
        panic!("Error parsing KDL file: {e:?}");
    });
    document_of(&doc)
}

fn kind_of(text: &str) -> BadKind {
    match Config::try_from(&parse(text)) {
        Ok(config) => panic!("no error for {text}: {config:?}"),
        Err(bad) => bad.kind,
    }
}

fn service(body: &str) -> String {
    format!("services {{\n Example {{\n{body}\n }}\n}}\n")
}

fn filters(pairs: &[(&str, &str)]) -> Settings {
    Settings { entries: pairs.iter().map(|(k, v)| (k.to_string(), v.to_string())).collect() }
}

const LOAD_TEST: &str = r#"
system {
    threads-per-service 8
    daemonize false
    pid-file "/tmp/river.pidfile"
    upgrade-socket "/tmp/river-upgrade.sock"
}

services {
    Example1 {
        listeners {
            "0.0.0.0:8080"
            "0.0.0.0:4443" cert-path="./assets/test.crt" key-path="./assets/test.key" offer-h2=true
        }
        connectors {
            load-balance {
                selection "Ketama" key="UriPath"
                discovery "Static"
                health-check "None"
            }
            "91.107.223.4:443" tls-sni="onevariable.com" proto="h2-or-h1"
        }
        path-control {
            request-filters {
                filter kind="block-cidr-range" addrs="192.168.0.0/16, 10.0.0.0/8, 2001:0db8::0/32"
            }
            upstream-request {
                filter kind="remove-header-key-regex" pattern=".*(secret|SECRET).*"
                filter kind="upsert-header" key="x-proxy-friend" value="river"
            }
            upstream-response {
                filter kind="remove-header-key-regex" pattern=".*ETag.*"
                filter kind="upsert-header" key="x-with-love-from" value="river"
            }
        }
        rate-limiting {
            rule kind="source-ip" max-buckets=4000 tokens-per-bucket=10 refill-qty=1 refill-rate-ms=10
            rule kind="uri" pattern="static/.*" max-buckets=2000 tokens-per-bucket=20 refill-qty=5 refill-rate-ms=1
            rule kind="uri-group" pattern=r".*\.mp4" tokens-per-bucket=50 refill-qty=2 refill-rate-ms=3
        }
    }
    Example2 {
        listeners {
            "0.0.0.0:8000"
        }
        connectors {
            "91.107.223.4:80"
        }
    }
    Example3 {
        listeners {
            "0.0.0.0:9000"
            "0.0.0.0:9443" cert-path="./assets/test.crt" key-path="./assets/test.key" offer-h2=true
        }
        file-server {
            base-path "."
        }
    }
}
"#;

#[test]
fn test_load_test() {
    let val = Config::try_from(&parse(LOAD_TEST)).unwrap_or_else(|e| {
        panic!("Error rendering config from KDL file: {e:?}");
    });

    let expected = Config {
        validate_configs: false,
        threads_per_service: 8,
        basic_proxies: vec![
            ProxyConfig {
                name: "Example1".into(),
                listeners: vec![
                    ListenerConfig {
                        source: ListenerKind::Tcp {
                            addr: "0.0.0.0:8080".into(),
                            tls: None,
                            offer_h2: false,
                        },
                    },
                    ListenerConfig {
                        source: ListenerKind::Tcp {
                            addr: "0.0.0.0:4443".into(),
                            tls: Some(TlsConfig {
                                cert_path: "./assets/test.crt".into(),
                                key_path: "./assets/test.key".into(),
                            }),
                            offer_h2: true,
                        },
                    },
                ],
                upstreams: vec![UpstreamPeer {
                    address: SocketAddress { ip: IpAddress::V4(0x5b6b_df04), port: 443 },
                    tls: true,
                    sni: String::from("onevariable.com"),
                    alpn: Alpn::H2H1,
                }],
                path_control: river::config::internal::PathControl {
                    upstream_request_filters: vec![
                        filters(&[
                            ("kind", "remove-header-key-regex"),
                            ("pattern", ".*(secret|SECRET).*"),
                        ]),
                        filters(&[
                            ("kind", "upsert-header"),
                            ("key", "x-proxy-friend"),
                            ("value", "river"),
                        ]),
                    ],
                    upstream_response_filters: vec![
                        filters(&[("kind", "remove-header-key-regex"), ("pattern", ".*ETag.*")]),
                        filters(&[
                            ("kind", "upsert-header"),
                            ("key", "x-with-love-from"),
                            ("value", "river"),
                        ]),
                    ],
                    request_filters: vec![filters(&[
                        ("kind", "block-cidr-range"),
                        ("addrs", "192.168.0.0/16, 10.0.0.0/8, 2001:0db8::0/32"),
                    ])],
                },
                upstream_options: UpstreamOptions {
                    selection: SelectionKind::Ketama,
                    selector: RequestSelector::UriPath,
                    health_checks: HealthCheckKind::NoCheck,
                    discovery: DiscoveryKind::Static,
                },
                rate_limiting: RateLimitingConfig {
                    timeout_ms: None,
                    rules: vec![
                        AllRateConfig::Multi {
                            config: MultiRaterConfig {
                                threads: 8,
                                max_buckets: 4000,
                                max_tokens_per_bucket: 10,
                                refill_interval_millis: 10,
                                refill_qty: 1,
                            },
                            kind: MultiRequestKeyKind::SourceIp,
                        },
                        AllRateConfig::Multi {
                            config: MultiRaterConfig {
                                threads: 8,
                                max_buckets: 2000,
                                max_tokens_per_bucket: 20,
                                refill_interval_millis: 1,
                                refill_qty: 5,
                            },
                            kind: MultiRequestKeyKind::Uri {
                                pattern: RegexShim::new("static/.*").unwrap(),
                            },
                        },
                        AllRateConfig::Single {
                            config: SingleInstanceConfig {
                                max_tokens_per_bucket: 50,
                                refill_interval_millis: 3,
                                refill_qty: 2,
                            },
                            kind: SingleRequestKeyKind::UriGroup {
                                pattern: RegexShim::new(r".*\.mp4").unwrap(),
                            },
                        },
                    ],
                },
            },
            ProxyConfig {
                name: "Example2".into(),
                listeners: vec![ListenerConfig {
                    source: ListenerKind::Tcp {
                        addr: "0.0.0.0:8000".into(),
                        tls: None,
                        offer_h2: false,
                    },
                }],
                upstreams: vec![UpstreamPeer {
                    address: SocketAddress { ip: IpAddress::V4(0x5b6b_df04), port: 80 },
                    tls: false,
                    sni: String::new(),
                    alpn: Alpn::H1,
                }],
                path_control: river::config::internal::PathControl {
                    upstream_request_filters: vec![],
                    upstream_response_filters: vec![],
                    request_filters: vec![],
                },
                upstream_options: UpstreamOptions::default(),
                rate_limiting: RateLimitingConfig { timeout_ms: None, rules: vec![] },
            },
        ],
        file_servers: vec![FileServerConfig {
            name: "Example3".into(),
            listeners: vec![
                ListenerConfig {
                    source: ListenerKind::Tcp {
                        addr: "0.0.0.0:9000".into(),
                        tls: None,
                        offer_h2: false,
                    },
                },
                ListenerConfig {
                    source: ListenerKind::Tcp {
                        addr: "0.0.0.0:9443".into(),
                        tls: Some(TlsConfig {
                            cert_path: "./assets/test.crt".into(),
                            key_path: "./assets/test.key".into(),
                        }),
                        offer_h2: true,
                    },
                },
            ],
            base_path: Some(".".into()),
        }],
        daemonize: false,
        pid_file: Some("/tmp/river.pidfile".into()),
        upgrade_socket: Some("/tmp/river-upgrade.sock".into()),
        upgrade: false,
    };

    assert_eq!(val.validate_configs, expected.validate_configs);
    assert_eq!(val.threads_per_service, expected.threads_per_service);
    assert_eq!(val.basic_proxies.len(), expected.basic_proxies.len());
    assert_eq!(val.file_servers.len(), expected.file_servers.len());
    assert_eq!(val.daemonize, expected.daemonize);
    assert_eq!(val.pid_file, expected.pid_file);
    assert_eq!(val.upgrade_socket, expected.upgrade_socket);
    assert_eq!(val.upgrade, expected.upgrade);

    for (abp, ebp) in val.basic_proxies.iter().zip(expected.basic_proxies.iter()) {
        let ProxyConfig { name, listeners, upstream_options, upstreams, path_control, rate_limiting } =
            abp;
        assert_eq!(*name, ebp.name);
        assert_eq!(*listeners, ebp.listeners);
        assert_eq!(*upstream_options, ebp.upstream_options);
        assert_eq!(upstreams.len(), ebp.upstreams.len());
        upstreams.iter().zip(ebp.upstreams.iter()).for_each(|(a, e)| {
            assert_eq!(a.address, e.address);
            assert_eq!(a.tls, e.tls);
            assert_eq!(a.sni, e.sni);
            assert_eq!(a.alpn, e.alpn);
        });
        assert_eq!(*path_control, ebp.path_control);
        assert_eq!(*rate_limiting, ebp.rate_limiting);
    }

    for (afs, efs) in val.file_servers.iter().zip(expected.file_servers.iter()) {
        let FileServerConfig { name, listeners, base_path } = afs;
        assert_eq!(*name, efs.name);
        assert_eq!(*listeners, efs.listeners);
        assert_eq!(*base_path, efs.base_path);
    }

    // The whole configuration builds its services.
    for proxy in val.basic_proxies {
        assert!(river::proxy::river_proxy_service(proxy).is_ok());
    }
}

/// Empty: not allowed
const EMPTY_TEST: &str = "
";

#[test]
fn empty() {
    let val: Result<Config, _> = Config::try_from(&parse(EMPTY_TEST));
    assert!(val.is_err());
    assert_eq!(val.err().map(|b| b.kind), Some(BadKind::MissingSection));
}

/// Empty services: not allowed
const SERVICES_EMPTY_TEST: &str = "
    services {

    }
";

#[test]
fn services_empty() {
    let val: Result<Config, _> = Config::try_from(&parse(SERVICES_EMPTY_TEST));
    assert!(val.is_err());
    assert_eq!(val.err().map(|b| b.kind), Some(BadKind::NoServices));
}

/// The most minimal config is single services block
const ONE_SERVICE_TEST: &str = r#"
services {
    Example {
        listeners {
            "127.0.0.1:80"
        }
        connectors {
            "127.0.0.1:8000"
        }
    }
}
"#;

#[test]
fn one_service() {
    let val = Config::try_from(&parse(ONE_SERVICE_TEST)).unwrap_or_else(|e| {
        panic!("Error rendering config from KDL file: {e:?}");
    });
    assert_eq!(val.basic_proxies.len(), 1);
    assert_eq!(val.basic_proxies[0].listeners.len(), 1);
    assert_eq!(
        val.basic_proxies[0].listeners[0].source,
        ListenerKind::Tcp { addr: "127.0.0.1:80".into(), tls: None, offer_h2: false }
    );
    assert_eq!(
        val.basic_proxies[0].upstreams[0].address,
        SocketAddress { ip: IpAddress::V4(0x7f00_0001), port: 8000 }
    );
    assert_eq!(val.threads_per_service, 8);
    assert_eq!(val.basic_proxies[0].upstream_options, UpstreamOptions::default());
    assert_eq!(val.file_servers.len(), 0);
}

#[test]
fn errors_carry_the_place_in_the_source() {
    let text = service("listeners {\n \"127.0.0.1:80\" offer-h2=true\n}\nconnectors {\n \"127.0.0.1:8000\"\n}");
    let bad = Config::try_from(&parse(&text)).err().unwrap();
    assert_eq!(bad.kind, BadKind::OfferH2RequiresTls);
    let at = &text[bad.span.offset..bad.span.offset + bad.span.len];
    assert!(at.contains("\"127.0.0.1:80\" offer-h2=true"), "{at}");
    assert!(!at.contains("connectors"), "{at}");
}

#[test]
fn section_errors() {
    assert_eq!(kind_of("services"), BadKind::ExpectedNestedNode);
    assert_eq!(kind_of("services {\n Example\n}"), BadKind::ExpectedNestedBlock);
    assert_eq!(kind_of(&service("listeners {\n}\nlisteners {\n}")), BadKind::DuplicateSection);
    assert_eq!(kind_of(&service("listeners {\n}\nsurprise {\n}")), BadKind::UnknownSection);
    assert_eq!(
        kind_of(&service("connectors {\n}\nfile-server {\n}")),
        BadKind::UnknownSection
    );
    assert_eq!(kind_of(&service("")), BadKind::MissingSection);
    assert_eq!(kind_of(&service("listeners {\n}")), BadKind::NonzeroListenersRequired);
    assert_eq!(kind_of(&service("listeners {\n \"127.0.0.1:80\"\n}")), BadKind::MissingSection);
    assert_eq!(
        kind_of(&service("listeners {\n \"127.0.0.1:80\"\n}\nconnectors {\n}")),
        BadKind::NoConnectors
    );
    assert_eq!(
        kind_of(&service(
            "listeners {\n \"127.0.0.1:80\"\n}\nconnectors {\n load-balance {\n }\n}"
        )),
        BadKind::NoConnectors
    );
    assert_eq!(
        kind_of(&service(
            "listeners {\n \"127.0.0.1:80\"\n}\nconnectors {\n load-balance {\n }\n load-balance {\n }\n \"1.1.1.1:1\"\n}"
        )),
        BadKind::DuplicateLoadBalance
    );
    assert_eq!(
        kind_of(&service("listeners {\n \"127.0.0.1:80\"\n}\nfile-server")),
        BadKind::ExpectedNestedNode
    );
    assert_eq!(
        kind_of(&service("listeners {\n \"127.0.0.1:80\"\n}\nfile-server {\n base-path 1\n}")),
        BadKind::IncorrectArgument
    );
}

#[test]
fn a_file_server_needs_no_base_path() {
    let text = service("listeners {\n \"/tmp/files.sock\"\n}\nfile-server {\n}");
    let val = Config::try_from(&parse(&text)).unwrap();
    assert_eq!(val.basic_proxies.len(), 0);
    assert_eq!(val.file_servers.len(), 1);
    assert_eq!(val.file_servers[0].base_path, None);
    assert_eq!(val.file_servers[0].name, "Example");
    assert_eq!(
        val.file_servers[0].listeners,
        vec![ListenerConfig { source: ListenerKind::Uds("/tmp/files.sock".into()) }]
    );
    let last = service(
        "listeners {\n \"127.0.0.1:80\"\n}\nfile-server {\n base-path \"a\"\n base-path \"b\"\n}",
    );
    assert_eq!(
        Config::try_from(&parse(&last)).unwrap().file_servers[0].base_path,
        Some("b".to_string())
    );
}

fn node(text: &str) -> Node {
    parse(text).nodes.remove(0)
}

fn empty_doc() -> Document {
    Document { nodes: vec![], span: SourceSpan::default() }
}

#[test]
fn listener_rules() {
    let doc = empty_doc();
    let listener = |text: &str| extract_listener(&doc, &node(text));
    assert_eq!(
        listener("\"0.0.0.0:80\""),
        Ok(ListenerConfig {
            source: ListenerKind::Tcp { addr: "0.0.0.0:80".into(), tls: None, offer_h2: false }
        })
    );
    // HTTP/2 is on by default with TLS, and can be switched off.
    let tls = Some(TlsConfig { cert_path: "c".into(), key_path: "k".into() });
    assert_eq!(
        listener("\"0.0.0.0:443\" cert-path=\"c\" key-path=\"k\""),
        Ok(ListenerConfig {
            source: ListenerKind::Tcp { addr: "0.0.0.0:443".into(), tls: tls.clone(), offer_h2: true }
        })
    );
    assert_eq!(
        listener("\"0.0.0.0:443\" cert-path=\"c\" key-path=\"k\" offer-h2=false"),
        Ok(ListenerConfig {
            source: ListenerKind::Tcp { addr: "0.0.0.0:443".into(), tls, offer_h2: false }
        })
    );
    // Not offering HTTP/2 needs no TLS.
    assert_eq!(
        listener("\"0.0.0.0:80\" offer-h2=false"),
        Ok(ListenerConfig {
            source: ListenerKind::Tcp { addr: "0.0.0.0:80".into(), tls: None, offer_h2: false }
        })
    );
    assert_eq!(
        listener("\"/tmp/river.sock\""),
        Ok(ListenerConfig { source: ListenerKind::Uds("/tmp/river.sock".into()) })
    );
    let kind = |text: &str| listener(text).err().map(|b| b.kind);
    assert_eq!(kind("\"0.0.0.0:80\" offer-h2=true"), Some(BadKind::OfferH2RequiresTls));
    assert_eq!(kind("\"0.0.0.0:80\" cert-path=\"c\""), Some(BadKind::CertKeyMismatch));
    assert_eq!(kind("\"0.0.0.0:80\" key-path=\"k\" offer-h2=true"), Some(BadKind::CertKeyMismatch));
    assert_eq!(kind("\"0.0.0.0:80\" cert-path=1 key-path=\"k\""), Some(BadKind::ExpectedString));
    assert_eq!(kind("\"0.0.0.0:80\" cert-path=\"c\" key-path=true"), Some(BadKind::ExpectedString));
    assert_eq!(kind("\"0.0.0.0:80\" offer-h2=\"yes\""), Some(BadKind::ExpectedBool));
    assert_eq!(kind("\"0.0.0.0:80\" \"stray\""), Some(BadKind::UnnamedArgument));
}

#[test]
fn connector_rules() {
    let doc = empty_doc();
    let connector = |text: &str| extract_connector(&doc, &node(text));
    let address = SocketAddress { ip: IpAddress::V4(0x0102_0304), port: 80 };
    let peer = |tls: bool, sni: &str, alpn: Alpn| {
        Ok(UpstreamPeer { address, tls, sni: sni.to_string(), alpn })
    };
    assert_eq!(connector("\"1.2.3.4:80\""), peer(false, "", Alpn::H1));
    assert_eq!(connector("\"1.2.3.4:80\" proto=\"h1-only\""), peer(false, "", Alpn::H1));
    assert_eq!(connector("\"1.2.3.4:80\" tls-sni=\"a.example\""), peer(true, "a.example", Alpn::H2H1));
    assert_eq!(
        connector("\"1.2.3.4:80\" tls-sni=\"a.example\" proto=\"h1-only\""),
        peer(true, "a.example", Alpn::H1)
    );
    assert_eq!(
        connector("\"1.2.3.4:80\" tls-sni=\"a.example\" proto=\"h2-only\""),
        peer(true, "a.example", Alpn::H2)
    );
    assert_eq!(
        connector("\"1.2.3.4:80\" proto=\"h1-or-h2\" tls-sni=\"a.example\""),
        peer(true, "a.example", Alpn::H2H1)
    );
    assert_eq!(connector("\"1.2.3.4:80\" tls-sni=\"\" proto=\"h1-only\""), peer(true, "", Alpn::H1));
    let kind = |text: &str| connector(text).err().map(|b| b.kind);
    assert_eq!(kind("\"example.com:80\""), Some(BadKind::NotSocketAddress));
    assert_eq!(kind("\"1.2.3.4:80\" proto=\"h2-only\""), Some(BadKind::SniRequired));
    assert_eq!(kind("\"1.2.3.4:80\" proto=\"h2-or-h1\""), Some(BadKind::SniRequired));
    assert_eq!(kind("\"1.2.3.4:80\" tls-sni=\"\""), Some(BadKind::SniRequired));
    assert_eq!(kind("\"1.2.3.4:80\" tls-sni=\"\" proto=\"h2-only\""), Some(BadKind::SniRequired));
    assert_eq!(kind("\"1.2.3.4:80\" proto=\"h3\""), Some(BadKind::UnknownProto));
    assert_eq!(kind("\"1.2.3.4:80\" proto=2"), Some(BadKind::ArgumentNotString));
    assert_eq!(kind("\"1.2.3.4:80\" \"h2\""), Some(BadKind::UnnamedArgument));
}

#[test]
fn load_balance_rules() {
    let doc = empty_doc();
    let options = |text: &str| extract_load_balance(&doc, &node(text));
    assert_eq!(options("load-balance {\n}"), Ok(UpstreamOptions::default()));
    for (name, selection) in [("RoundRobin", SelectionKind::RoundRobin), ("Random", SelectionKind::Random)] {
        assert_eq!(
            options(&format!("load-balance {{\n selection \"{name}\"\n}}")),
            Ok(UpstreamOptions { selection, ..UpstreamOptions::default() })
        );
    }
    for (name, selection) in [("FNV", SelectionKind::Fnv), ("Ketama", SelectionKind::Ketama)] {
        for (key, selector) in [
            ("UriPath", RequestSelector::UriPath),
            ("SourceAddrAndUriPath", RequestSelector::SourceAddrAndUriPath),
        ] {
            assert_eq!(
                options(&format!("load-balance {{\n selection \"{name}\" key=\"{key}\"\n}}")),
                Ok(UpstreamOptions { selection, selector, ..UpstreamOptions::default() })
            );
        }
    }
    let kind = |text: &str| options(text).err().map(|b| b.kind);
    assert_eq!(kind("load-balance"), Some(BadKind::LoadBalanceNeedsChildren));
    assert_eq!(kind("load-balance {\n selection \"FNV\"\n}"), Some(BadKind::SelectionRequiresKey));
    assert_eq!(
        kind("load-balance {\n selection \"Ketama\" other=\"UriPath\"\n}"),
        Some(BadKind::SelectionRequiresKey)
    );
    assert_eq!(
        kind("load-balance {\n selection \"Ketama\" key=\"Method\"\n}"),
        Some(BadKind::UnknownKey)
    );
    assert_eq!(kind("load-balance {\n selection\n}"), Some(BadKind::MissingArguments));
    assert_eq!(kind("load-balance {\n selection \"Best\"\n}"), Some(BadKind::IncorrectArgument));
    assert_eq!(kind("load-balance {\n selection 1\n}"), Some(BadKind::IncorrectArgument));
    assert_eq!(
        kind("load-balance {\n selection \"Best\" \"x\"\n}"),
        Some(BadKind::IncorrectArgument)
    );
    assert_eq!(
        kind("load-balance {\n selection \"Random\" \"x\"\n}"),
        Some(BadKind::ShouldBeNamedArgument)
    );
    assert_eq!(
        kind("load-balance {\n selection \"Random\" key=1\n}"),
        Some(BadKind::ShouldBeStringValue)
    );
    assert_eq!(kind("load-balance {\n health-check \"Active\"\n}"), Some(BadKind::IncorrectArgument));
    assert_eq!(kind("load-balance {\n discovery \"Dns\"\n}"), Some(BadKind::IncorrectArgument));
    assert_eq!(kind("load-balance {\n discovery \"Static\" \"x\"\n}"), Some(BadKind::IncorrectArgument));
    assert_eq!(kind("load-balance {\n weights 1\n}"), Some(BadKind::UnknownSetting));
}

#[test]
fn rate_limiting_rules() {
    let doc = empty_doc();
    let rule = |text: &str| make_rate_limiter(4, &doc, &node(text));
    let numbers = "max-buckets=10 tokens-per-bucket=3 refill-qty=1 refill-rate-ms=20";
    let config = MultiRaterConfig {
        threads: 4,
        max_buckets: 10,
        max_tokens_per_bucket: 3,
        refill_interval_millis: 20,
        refill_qty: 1,
    };
    assert_eq!(
        rule(&format!("rule kind=\"source-ip\" {numbers}")),
        Ok(AllRateConfig::Multi { kind: MultiRequestKeyKind::SourceIp, config })
    );
    assert_eq!(
        rule(&format!("rule kind=\"uri\" pattern=\"^/a\" {numbers}")),
        Ok(AllRateConfig::Multi {
            kind: MultiRequestKeyKind::Uri { pattern: RegexShim::new("^/a").unwrap() },
            config
        })
    );
    assert_eq!(
        rule("rule kind=\"uri-group\" pattern=\"^/a\" tokens-per-bucket=3 refill-qty=1 refill-rate-ms=20"),
        Ok(AllRateConfig::Single {
            kind: SingleRequestKeyKind::UriGroup { pattern: RegexShim::new("^/a").unwrap() },
            config: SingleInstanceConfig {
                max_tokens_per_bucket: 3,
                refill_interval_millis: 20,
                refill_qty: 1
            }
        })
    );
    let kind = |text: &str| rule(text).err().map(|b| b.kind);
    assert_eq!(kind(&format!("rule {numbers}")), Some(BadKind::MissingKey));
    assert_eq!(kind(&format!("rule kind=1 {numbers}")), Some(BadKind::ShouldHaveStringValue));
    assert_eq!(
        kind("rule kind=\"source-ip\" tokens-per-bucket=3 refill-qty=1 refill-rate-ms=20"),
        Some(BadKind::MissingKey)
    );
    assert_eq!(
        kind("rule kind=\"source-ip\" max-buckets=-1 tokens-per-bucket=3 refill-qty=1 refill-rate-ms=20"),
        Some(BadKind::ShouldHavePositiveInteger)
    );
    assert_eq!(
        kind("rule kind=\"source-ip\" max-buckets=1 tokens-per-bucket=\"3\" refill-qty=1 refill-rate-ms=20"),
        Some(BadKind::ShouldHavePositiveInteger)
    );
    assert_eq!(
        kind("rule kind=\"source-ip\" max-buckets=1 tokens-per-bucket=3 refill-qty=1.5 refill-rate-ms=20"),
        Some(BadKind::ShouldHavePositiveInteger)
    );
    assert_eq!(kind(&format!("rule kind=\"uri\" {numbers}")), Some(BadKind::MissingKey));
    assert_eq!(
        kind(&format!("rule kind=\"uri\" pattern=\"(\" {numbers}")),
        Some(BadKind::InvalidRegex)
    );
    assert_eq!(
        kind(&format!("rule kind=\"dest-ip\" {numbers}")),
        Some(BadKind::UnknownRateLimitKind)
    );

    let section = |body: &str| {
        kind_of(&service(&format!(
            "listeners {{\n \"127.0.0.1:80\"\n}}\nconnectors {{\n \"127.0.0.1:8000\"\n}}\nrate-limiting {{\n{body}\n}}"
        )))
    };
    assert_eq!(section("timeout"), BadKind::MissingMillis);
    assert_eq!(section("timeout seconds=1"), BadKind::MissingMillis);
    assert_eq!(section("timeout millis=1 millis=2"), BadKind::MissingMillis);
    assert_eq!(section("timeout millis=\"1\""), BadKind::MillisNotNumber);
    assert_eq!(section("timeout millis=1\n timeout millis=2"), BadKind::TimeoutTwice);
    assert_eq!(section("timeout 5"), BadKind::UnnamedArgument);
    assert_eq!(section("rule \"source-ip\""), BadKind::UnnamedArgument);
    assert_eq!(section("limit kind=\"source-ip\""), BadKind::UnknownName);
    let with_timeout = service(
        "listeners {\n \"127.0.0.1:80\"\n}\nconnectors {\n \"127.0.0.1:8000\"\n}\nrate-limiting {\n timeout millis=250\n}",
    );
    let val = Config::try_from(&parse(&with_timeout)).unwrap();
    assert_eq!(
        val.basic_proxies[0].rate_limiting,
        RateLimitingConfig { timeout_ms: Some(250), rules: vec![] }
    );
}

#[test]
fn filter_rules() {
    let doc = empty_doc();
    let section = parse("filter kind=\"upsert-header\" key=\"a\" value=\"b\"\nfilter kind=\"x\"");
    assert_eq!(
        collect_filters(&doc, &section),
        Ok(vec![
            filters(&[("kind", "upsert-header"), ("key", "a"), ("value", "b")]),
            filters(&[("kind", "x")])
        ])
    );
    assert_eq!(collect_filters(&doc, &empty_doc()), Ok(vec![]));
    let kind = |text: &str| collect_filters(&doc, &parse(text)).err().map(|b| b.kind);
    assert_eq!(kind("filter kind=\"x\"\nrule kind=\"y\""), Some(BadKind::InvalidFilterRule));
    assert_eq!(kind("filter \"x\""), Some(BadKind::UnnamedArgument));
    assert_eq!(kind("filter kind=1"), Some(BadKind::ArgumentNotString));
}

#[test]
fn system_rules() {
    let data = |text: &str| extract_system_data(&parse(text));
    assert_eq!(data(""), Ok(SystemData::default()));
    assert_eq!(data("system"), Ok(SystemData::default()));
    assert_eq!(
        data("system {\n}"),
        Ok(SystemData {
            threads_per_service: 8,
            daemonize: false,
            upgrade_socket: None,
            pid_file: None
        })
    );
    assert_eq!(
        data("system {\n threads-per-service 0x10\n daemonize true\n upgrade-socket \"/u\"\n pid-file \"/p\"\n}"),
        Ok(SystemData {
            threads_per_service: 16,
            daemonize: true,
            upgrade_socket: Some("/u".into()),
            pid_file: Some("/p".into())
        })
    );
    let kind = |text: &str| data(text).err().map(|b| b.kind);
    assert_eq!(kind("system {\n threads-per-service\n}"), Some(BadKind::ThreadsNotOneEntry));
    assert_eq!(kind("system {\n threads-per-service 1 2\n}"), Some(BadKind::ThreadsNotOneEntry));
    assert_eq!(kind("system {\n threads-per-service \"8\"\n}"), Some(BadKind::ThreadsNotInteger));
    assert_eq!(kind("system {\n threads-per-service 8.5\n}"), Some(BadKind::ThreadsNotInteger));
    assert_eq!(kind("system {\n threads-per-service -1\n}"), Some(BadKind::ThreadsNotUsize));
    assert_eq!(kind("system {\n daemonize \"yes\"\n}"), Some(BadKind::IncorrectArgument));
    assert_eq!(kind("system {\n daemonize\n}"), Some(BadKind::IncorrectArgument));
    assert_eq!(kind("system {\n pid-file 1\n}"), Some(BadKind::IncorrectArgument));
    assert_eq!(kind("system {\n upgrade-socket \"a\" \"b\"\n}"), Some(BadKind::IncorrectArgument));
    let doc = empty_doc();
    assert_eq!(extract_threads_per_service(&doc, &parse("threads-per-service 3")), Ok(3));
    assert_eq!(extract_threads_per_service(&doc, &parse("")), Ok(8));
}

#[test]
fn service_kinds() {
    assert_eq!(service_kind(&parse("")), Ok(ServiceKind::Proxy));
    assert_eq!(
        service_kind(&parse("listeners\nconnectors\npath-control\nrate-limiting")),
        Ok(ServiceKind::Proxy)
    );
    assert_eq!(service_kind(&parse("listeners")), Ok(ServiceKind::Proxy));
    assert_eq!(service_kind(&parse("file-server\nlisteners")), Ok(ServiceKind::FileServer));
    assert_eq!(
        service_kind(&parse("file-server\nconnectors")).err().map(|b| b.kind),
        Some(BadKind::UnknownSection)
    );
    let doubled = parse("listeners\nconnectors\nlisteners\nconnectors");
    assert_eq!(
        service_kind(&doubled),
        Err(Bad { kind: BadKind::DuplicateSection, span: doubled.nodes[2].span })
    );
}

#[test]
fn document_helpers() {
    let doc = parse("a 1\nb {\n c \"x\" k=\"v\" k=\"w\" flag=true\n}\na 2\nd");
    let outer = empty_doc();
    assert_eq!(doc.get("a").map(|n| n.entries[0].value.clone()), Some(Value::Integer(1)));
    assert!(doc.get("z").is_none());
    let b = required_child_doc(&outer, &doc, "b").unwrap();
    assert_eq!(b.nodes.len(), 1);
    assert_eq!(optional_child_doc(&outer, &doc, "b").map(|d| d.nodes.len()), Some(1));
    assert!(optional_child_doc(&outer, &doc, "a").is_none());
    assert!(optional_child_doc(&outer, &doc, "z").is_none());
    assert_eq!(
        required_child_doc(&outer, &doc, "z").err(),
        Some(Bad { kind: BadKind::MissingSection, span: doc.span })
    );
    assert_eq!(
        required_child_doc(&outer, &doc, "a").err(),
        Some(Bad { kind: BadKind::ExpectedNestedNode, span: doc.nodes[0].span })
    );
    assert_eq!(
        wildcard_argless_child_docs(&outer, &doc).err(),
        Some(Bad { kind: BadKind::ExpectedNestedBlock, span: doc.nodes[0].span })
    );
    let blocks = parse("one {\n x\n}\ntwo {\n}");
    let children = wildcard_argless_child_docs(&outer, &blocks).unwrap();
    assert_eq!(children.iter().map(|c| (c.0, c.1.nodes.len())).collect::<Vec<_>>(), vec![("one", 1), ("two", 0)]);
    assert_eq!(
        data_nodes(&outer, &doc).unwrap().iter().map(|n| n.name.as_str()).collect::<Vec<_>>(),
        vec!["a", "b", "a", "d"]
    );

    let c = &b.nodes[0];
    assert_eq!(property(&c.entries, "k").map(|e| e.value.clone()), Some(Value::String("w".into())));
    assert!(property(&c.entries, "x").is_none());
    assert_eq!(str_str_args(&outer, &c.entries).err().map(|b| b.kind), Some(BadKind::UnnamedArgument));
    assert_eq!(str_value_args(&outer, &c.entries).err().map(|b| b.kind), Some(BadKind::UnnamedArgument));
    let named = node("n k=\"v\" flag=true");
    assert_eq!(
        str_str_args(&outer, &named.entries).err(),
        Some(Bad { kind: BadKind::ArgumentNotString, span: named.entries[1].span })
    );
    let pairs = str_value_args(&outer, &named.entries).unwrap();
    assert_eq!(pairs.iter().map(|p| p.0).collect::<Vec<_>>(), vec!["k", "flag"]);
    assert_eq!(map_ensure_str(&outer, Some(pairs[0].1)), Ok(Some("v")));
    assert_eq!(map_ensure_str(&outer, None), Ok(None));
    assert_eq!(map_ensure_str(&outer, Some(pairs[1].1)).err().map(|b| b.kind), Some(BadKind::ExpectedString));
    assert_eq!(map_ensure_bool(&outer, Some(pairs[1].1)), Ok(Some(true)));
    assert_eq!(map_ensure_bool(&outer, None), Ok(None));
    assert_eq!(map_ensure_bool(&outer, Some(pairs[0].1)).err().map(|b| b.kind), Some(BadKind::ExpectedBool));
    let strings = node("n a=\"1\" b=\"2\"");
    assert_eq!(str_str_args(&outer, &strings.entries), Ok(vec![("a", "1"), ("b", "2")]));

    let one = node("discovery \"Static\"");
    assert_eq!(extract_one_str_arg(&outer, &one, "discovery", &one.entries), Ok("Static"));
    let flag = node("daemonize true");
    assert_eq!(extract_one_bool_arg(&outer, &flag, "daemonize", &flag.entries), Ok(true));
    assert_eq!(
        extract_one_str_arg(&outer, &flag, "daemonize", &flag.entries).err(),
        Some(Bad { kind: BadKind::IncorrectArgument, span: flag.span })
    );
    assert_eq!(
        extract_one_bool_arg(&outer, &one, "discovery", &one.entries).err().map(|b| b.kind),
        Some(BadKind::IncorrectArgument)
    );
    let sel = node("selection \"Ketama\" key=\"UriPath\" extra=\"1\"");
    assert_eq!(
        extract_one_str_arg_with_kv_args(&outer, &sel, "selection", &sel.entries),
        Ok(("Ketama", vec![("key", "UriPath"), ("extra", "1")]))
    );
    assert_eq!(Value::Integer(-1).as_usize(), None);
    assert_eq!(Value::Integer(7).as_usize(), Some(7));
    assert_eq!(Value::Integer(-1).as_i64(), Some(-1));
    assert_eq!(Value::Float.as_i64(), None);
    assert_eq!(Value::Null.as_string(), None);
    assert_eq!(Value::Bool(false).as_bool(), Some(false));
}

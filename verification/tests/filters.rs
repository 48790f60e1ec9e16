use river::net::{CidrBlock, ClientAddr, IpAddress, SocketAddress};
use river::proxy::request_filters::{
    CidrRangeFilter, Decision, RequestFilter, RequestFilterMod,
};
use river::proxy::{ensure_empty, extract_val, ProxyError, RiverContext};
use river::session::{HeaderList, RequestHeader, Session};
use river::settings::Settings;

fn filter_settings(pairs: &[(&str, &str)]) -> Settings {
    Settings { entries: pairs.iter().map(|(k, v)| (k.to_string(), v.to_string())).collect() }
}

fn session_from(client_addr: Option<ClientAddr>) -> Session {
    Session {
        client_addr,
        req_header: RequestHeader {
            method: "GET".to_string(),
            path: "/".to_string(),
            query: None,
            headers: HeaderList { entries: Vec::new() },
        },
    }
}

fn v4(a: u8, b: u8, c: u8, d: u8) -> Option<ClientAddr> {
    Some(ClientAddr::Inet(SocketAddress {
        ip: IpAddress::V4(u32::from_be_bytes([a, b, c, d])),
        port: 40000,
    }))
}

#[test]
fn cidr_block_scenario() {
    let filter =
        CidrRangeFilter::from_settings(filter_settings(&[("addrs", "10.0.0.0/8, 2001:db8::/32")]))
            .unwrap();
    assert_eq!(
        filter.blocks,
        vec![
            CidrBlock { network: IpAddress::V4(0x0a00_0000), prefix_len: 8 },
            CidrBlock {
                network: IpAddress::V6(0x2001_0db8_0000_0000_0000_0000_0000_0000),
                prefix_len: 32
            },
        ]
    );
    let mut ctx = RiverContext { selector_buf: Vec::new() };
    assert_eq!(
        filter.request_filter(&session_from(v4(10, 1, 2, 3)), &mut ctx),
        Ok(Decision::Respond(401))
    );
    assert_eq!(
        filter.request_filter(&session_from(v4(8, 8, 8, 8)), &mut ctx),
        Ok(Decision::Continue)
    );
    let inside_v6 = Some(ClientAddr::Inet(SocketAddress {
        ip: IpAddress::V6(0x2001_0db8_ffff_0000_0000_0000_0000_0001),
        port: 1,
    }));
    assert_eq!(
        filter.request_filter(&session_from(inside_v6), &mut ctx),
        Ok(Decision::Respond(401))
    );
    let outside_v6 = Some(ClientAddr::Inet(SocketAddress {
        ip: IpAddress::V6(0x2001_0db9_0000_0000_0000_0000_0000_0001),
        port: 1,
    }));
    assert_eq!(filter.request_filter(&session_from(outside_v6), &mut ctx), Ok(Decision::Continue));
}

#[test]
fn cidr_filter_edge_cases() {
    let filter =
        RequestFilter::from_settings(filter_settings(&[
            ("kind", "block-cidr-range"),
            ("addrs", "192.168.0.0/16, 10.0.0.0/8, 2001:0db8::0/32"),
        ]))
        .unwrap();
    let mut ctx = RiverContext { selector_buf: vec![1, 2, 3] };
    // Unable to determine source address: blocked.
    assert_eq!(filter.request_filter(&session_from(None), &mut ctx), Ok(Decision::Respond(401)));
    // CIDR filters don't apply to UDS.
    assert_eq!(
        filter.request_filter(&session_from(Some(ClientAddr::Unix("(unnamed)".to_string()))), &mut ctx),
        Ok(Decision::Continue)
    );
    assert_eq!(
        filter.request_filter(&session_from(v4(192, 168, 255, 255)), &mut ctx),
        Ok(Decision::Respond(401))
    );
    assert_eq!(
        filter.request_filter(&session_from(v4(192, 169, 0, 0)), &mut ctx),
        Ok(Decision::Continue)
    );
    assert_eq!(ctx.selector_buf, vec![1, 2, 3]);
}

#[test]
fn cidr_filter_settings_errors() {
    assert_eq!(
        CidrRangeFilter::from_settings(filter_settings(&[])).err(),
        Some(ProxyError::MissingConfigurationField)
    );
    assert_eq!(
        CidrRangeFilter::from_settings(filter_settings(&[("addrs", "10.0.0.0/8, nonsense")])).err(),
        Some(ProxyError::InvalidCidr)
    );
    // Host bits after the prefix are not a network.
    assert_eq!(
        CidrRangeFilter::from_settings(filter_settings(&[("addrs", "10.0.0.1/8")])).err(),
        Some(ProxyError::InvalidCidr)
    );
    assert_eq!(
        CidrRangeFilter::from_settings(filter_settings(&[("addrs", "")])).err(),
        Some(ProxyError::InvalidCidr)
    );
    assert_eq!(
        CidrRangeFilter::from_settings(filter_settings(&[("addrs", "10.0.0.0/8"), ("x", "y")]))
            .err(),
        Some(ProxyError::UnknownConfigKey)
    );
    assert_eq!(
        RequestFilter::from_settings(filter_settings(&[("kind", "allow-all")])).err(),
        Some(ProxyError::UnknownFilterKind)
    );
    assert_eq!(
        RequestFilter::from_settings(filter_settings(&[("addrs", "10.0.0.0/8")])).err(),
        Some(ProxyError::MissingConfigurationField)
    );
}

#[test]
fn cidr_block_contains_by_prefix() {
    let all = CidrBlock { network: IpAddress::V4(0), prefix_len: 0 };
    assert!(all.contains(IpAddress::V4(0xffff_ffff)));
    assert!(!all.contains(IpAddress::V6(0)));
    let host = CidrBlock { network: IpAddress::V4(0x0102_0304), prefix_len: 32 };
    assert!(host.contains(IpAddress::V4(0x0102_0304)));
    assert!(!host.contains(IpAddress::V4(0x0102_0305)));
    let half = CidrBlock { network: IpAddress::V4(0x8000_0000), prefix_len: 1 };
    assert!(half.contains(IpAddress::V4(0xffff_ffff)));
    assert!(!half.contains(IpAddress::V4(0x7fff_ffff)));
    let v6 = CidrBlock { network: IpAddress::V6(1 << 127), prefix_len: 1 };
    assert!(v6.contains(IpAddress::V6(u128::MAX)));
    assert!(!v6.contains(IpAddress::V6(1)));
    let v6_host = CidrBlock { network: IpAddress::V6(7), prefix_len: 128 };
    assert!(v6_host.contains(IpAddress::V6(7)));
    assert!(!v6_host.contains(IpAddress::V6(6)));
}

#[test]
fn settings_behave_as_a_map() {
    let mut s = filter_settings(&[("a", "1"), ("b", "2"), ("a", "3")]);
    assert_eq!(s.get("a"), Some(&"3".to_string()));
    assert_eq!(s.get("c"), None);
    assert_eq!(extract_val("a", &mut s), Ok("3".to_string()));
    assert_eq!(s, filter_settings(&[("b", "2")]));
    assert_eq!(extract_val("a", &mut s), Err(ProxyError::MissingConfigurationField));
    assert_eq!(ensure_empty(&s), Err(ProxyError::UnknownConfigKey));
    s.insert("b".to_string(), "4".to_string());
    s.insert("c".to_string(), "5".to_string());
    assert_eq!(s, filter_settings(&[("b", "4"), ("c", "5")]));
    assert_eq!(s.duplicate(), s);
    assert_eq!(s.remove("b"), Some("4".to_string()));
    assert_eq!(s.remove("c"), Some("5".to_string()));
    assert!(s.is_empty());
    assert_eq!(ensure_empty(&s), Ok(()));
    assert!(Settings::new().is_empty());
}

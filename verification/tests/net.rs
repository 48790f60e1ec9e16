use river::net::{
    parse_ipv4, parse_ipv6, parse_octet, parse_port, parse_socket_addr, ClientAddr, IpAddress,
    SocketAddress,
};
use river::proxy::request_selector::{
    null_selector, source_addr_and_uri_path_selector, uri_path_selector, RequestSelector,
};
use river::proxy::RiverContext;
use river::session::{HeaderList, RequestHeader, Session};
use river::text::{char_is_space, chars_of, split_on, trim};

fn selector_session(client_addr: Option<ClientAddr>, path: &str) -> Session {
    Session {
        client_addr,
        req_header: RequestHeader {
            method: "GET".to_string(),
            path: path.to_string(),
            query: Some("q=1".to_string()),
            headers: HeaderList { entries: Vec::new() },
        },
    }
}

#[test]
fn socket_addresses_are_read() {
    assert_eq!(
        parse_socket_addr("127.0.0.1:8080"),
        Some(SocketAddress { ip: IpAddress::V4(0x7f00_0001), port: 8080 })
    );
    assert_eq!(
        parse_socket_addr("0.0.0.0:0"),
        Some(SocketAddress { ip: IpAddress::V4(0), port: 0 })
    );
    assert_eq!(
        parse_socket_addr("255.255.255.255:65535"),
        Some(SocketAddress { ip: IpAddress::V4(0xffff_ffff), port: 65535 })
    );
    assert_eq!(
        parse_socket_addr("91.107.223.4:443"),
        Some(SocketAddress { ip: IpAddress::V4(0x5b6b_df04), port: 443 })
    );
    assert_eq!(
        parse_socket_addr("[::1]:8080"),
        Some(SocketAddress { ip: IpAddress::V6(1), port: 8080 })
    );
    assert_eq!(
        parse_socket_addr("[2001:db8::2]:443"),
        Some(SocketAddress {
            ip: IpAddress::V6(0x2001_0db8_0000_0000_0000_0000_0000_0002),
            port: 443
        })
    );
    assert_eq!(
        parse_socket_addr("127.0.0.1:0080"),
        Some(SocketAddress { ip: IpAddress::V4(0x7f00_0001), port: 80 })
    );
    for bad in [
        "",
        "127.0.0.1",
        "127.0.0.1:",
        ":80",
        "127.0.0.1:65536",
        "127.0.0.1:-1",
        "127.0.0.1:+80",
        "127.0.0.1:80 ",
        "256.0.0.1:80",
        "1.2.3:80",
        "1.2.3.4.5:80",
        "01.2.3.4:80",
        "1..3.4:80",
        "a.b.c.d:80",
        "localhost:80",
        "::1:80",
        "[::1]",
        "[::1]80",
        "[::1]:",
        "[::1/128]:80",
        "[1.2.3.4]:80",
        "[::1]:99999",
        "/tmp/river.sock",
        "./relative",
    ] {
        assert_eq!(parse_socket_addr(bad), None, "{bad}");
    }
}

#[test]
fn address_parts_are_read() {
    assert_eq!(parse_port("0"), Some(0));
    assert_eq!(parse_port("65535"), Some(65535));
    assert_eq!(parse_port("65536"), None);
    assert_eq!(parse_port("000000000000000000000000443"), Some(443));
    assert_eq!(parse_port("99999999999999999999999999999"), None);
    assert_eq!(parse_port(""), None);
    assert_eq!(parse_port("8o"), None);
    assert_eq!(parse_octet("0"), Some(0));
    assert_eq!(parse_octet("255"), Some(255));
    assert_eq!(parse_octet("256"), None);
    assert_eq!(parse_octet("00"), None);
    assert_eq!(parse_octet("1234"), None);
    assert_eq!(parse_octet(""), None);
    assert_eq!(parse_ipv4("10.1.2.3"), Some(0x0a01_0203));
    assert_eq!(parse_ipv4("10.1.2"), None);
    assert_eq!(parse_ipv6("::"), Some(0));
    assert_eq!(parse_ipv6("::ffff:1.2.3.4"), Some(0xffff_0102_0304));
    assert_eq!(parse_ipv6("::/0"), None);
    assert_eq!(parse_ipv6("1.2.3.4"), None);
    assert_eq!(parse_ipv6("nonsense"), None);
}

#[test]
fn selector_keys() {
    let mut ctx = RiverContext { selector_buf: b"left over".to_vec() };
    let from = Some(ClientAddr::Inet(SocketAddress { ip: IpAddress::V4(0x7f00_0001), port: 8080 }));
    let session = selector_session(from, "/x/y");

    null_selector(&mut ctx, &session);
    assert_eq!(ctx.selector_buf, b"");
    ctx.selector_buf = b"left over".to_vec();
    uri_path_selector(&mut ctx, &session);
    assert_eq!(ctx.selector_buf, b"/x/y");
    source_addr_and_uri_path_selector(&mut ctx, &session);
    assert_eq!(ctx.selector_buf, b"Some(Inet(127.0.0.1:8080)):/x/y");

    let v6 = Some(ClientAddr::Inet(SocketAddress { ip: IpAddress::V6(0xabc), port: 1 }));
    RequestSelector::SourceAddrAndUriPath.select(&mut ctx, &selector_session(v6, "/"));
    assert_eq!(ctx.selector_buf, b"Some(Inet([::abc]:1)):/");
    RequestSelector::SourceAddrAndUriPath
        .select(&mut ctx, &selector_session(Some(ClientAddr::Unix("(unnamed)".to_string())), "/u"));
    assert_eq!(ctx.selector_buf, b"Some(Unix((unnamed))):/u");
    RequestSelector::SourceAddrAndUriPath.select(&mut ctx, &selector_session(None, "/n"));
    assert_eq!(ctx.selector_buf, b"None:/n");
    let bound = Some(ClientAddr::Unix("\"/tmp/client.sock\" (pathname)".to_string()));
    RequestSelector::SourceAddrAndUriPath.select(&mut ctx, &selector_session(bound, "/p"));
    assert_eq!(ctx.selector_buf, b"Some(Unix(\"/tmp/client.sock\" (pathname))):/p");
    for (ip, port, text) in [
        (IpAddress::V4(0), 0u16, "Some(Inet(0.0.0.0:0)):/"),
        (IpAddress::V4(u32::MAX), u16::MAX, "Some(Inet(255.255.255.255:65535)):/"),
        (IpAddress::V4(0x0a00_6409), 443, "Some(Inet(10.0.100.9:443)):/"),
        (IpAddress::V6(0), 80, "Some(Inet([::]:80)):/"),
        (IpAddress::V6(1), 8080, "Some(Inet([::1]:8080)):/"),
        (
            IpAddress::V6(0x2001_0db8_0000_0000_0000_0000_0000_0002),
            443,
            "Some(Inet([2001:db8::2]:443)):/",
        ),
        (IpAddress::V6(0xffff_0102_0304), 9, "Some(Inet([::ffff:1.2.3.4]:9)):/"),
    ] {
        let from = Some(ClientAddr::Inet(SocketAddress { ip, port }));
        RequestSelector::SourceAddrAndUriPath.select(&mut ctx, &selector_session(from, "/"));
        assert_eq!(String::from_utf8(ctx.selector_buf.clone()).unwrap(), text);
    }
    RequestSelector::UriPath.select(&mut ctx, &selector_session(None, "/caf\u{e9}"));
    assert_eq!(ctx.selector_buf, "/caf\u{e9}".as_bytes());
    RequestSelector::Null.select(&mut ctx, &session);
    assert!(ctx.selector_buf.is_empty());

    // The same request gives the same key, at every call.
    source_addr_and_uri_path_selector(&mut ctx, &session);
    let once = ctx.selector_buf.clone();
    source_addr_and_uri_path_selector(&mut ctx, &session);
    assert_eq!(ctx.selector_buf, once);
}

#[test]
fn text_helpers() {
    assert_eq!(trim("  10.0.0.0/8 \t\n"), "10.0.0.0/8");
    assert_eq!(trim(""), "");
    assert_eq!(trim(" \u{a0}\u{3000} "), "");
    assert_eq!(trim("a b"), "a b");
    assert_eq!(trim("\u{2003}x\u{85}"), "x");
    assert_eq!(trim("\u{200b}x"), "\u{200b}x");
    assert_eq!(split_on("a,b,,c", ','), vec!["a", "b", "", "c"]);
    assert_eq!(split_on("", ','), vec![""]);
    assert_eq!(split_on(",", ','), vec!["", ""]);
    assert_eq!(split_on("abc", ','), vec!["abc"]);
    assert_eq!(split_on("a,", ','), vec!["a", ""]);
    assert_eq!(chars_of("h\u{e9}!"), vec!['h', '\u{e9}', '!']);
    assert!(char_is_space(' ') && char_is_space('\n') && char_is_space('\u{2028}'));
    assert!(!char_is_space('a') && !char_is_space('\u{200b}'));
}

use river::proxy::request_modifiers::{
    PathRewrite, RemoveHeaderKeyRegex, RequestModifier, RequestModifyMod, UpsertHeader,
};
use river::proxy::response_modifiers::{ResponseModifier, ResponseModifyMod};
use river::proxy::{ProxyError, RiverContext};
use river::session::{Header, HeaderList, RequestHeader, ResponseHeader, Session};
use river::settings::Settings;

fn settings(pairs: &[(&str, &str)]) -> Settings {
    Settings { entries: pairs.iter().map(|(k, v)| (k.to_string(), v.to_string())).collect() }
}

fn headers(pairs: &[(&str, &str)]) -> HeaderList {
    HeaderList {
        entries: pairs
            .iter()
            .map(|(n, v)| Header { name: n.to_string(), value: v.as_bytes().to_vec() })
            .collect(),
    }
}

fn request(path: &str, query: Option<&str>, pairs: &[(&str, &str)]) -> RequestHeader {
    RequestHeader {
        method: "GET".to_string(),
        path: path.to_string(),
        query: query.map(|q| q.to_string()),
        headers: headers(pairs),
    }
}

fn session(path: &str) -> Session {
    Session { client_addr: None, req_header: request(path, None, &[]) }
}

fn ctx() -> RiverContext {
    RiverContext { selector_buf: Vec::new() }
}

#[test]
fn upsert_header_leaves_exactly_one() {
    let m = UpsertHeader::from_settings(settings(&[("key", "x-proxy-friend"), ("value", "river")]))
        .unwrap();
    let mut header = request(
        "/",
        None,
        &[("Accept", "*/*"), ("X-Proxy-Friend", "old"), ("Host", "a"), ("x-proxy-friend", "older")],
    );
    let mut c = ctx();
    m.upstream_request_filter(&session("/"), &mut header, &mut c).unwrap();
    assert_eq!(
        header.headers,
        headers(&[("Accept", "*/*"), ("Host", "a"), ("x-proxy-friend", "river")])
    );
    assert_eq!(c, ctx());
}

#[test]
fn upsert_header_appends_when_absent() {
    let m = UpsertHeader { key: "x-with-love-from".to_string(), value: "river".to_string() };
    let mut header = request("/", None, &[("Accept", "*/*")]);
    m.upstream_request_filter(&session("/"), &mut header, &mut ctx()).unwrap();
    assert_eq!(header.headers, headers(&[("Accept", "*/*"), ("x-with-love-from", "river")]));
    let mut empty = request("/", None, &[]);
    m.upstream_request_filter(&session("/"), &mut empty, &mut ctx()).unwrap();
    assert_eq!(empty.headers, headers(&[("x-with-love-from", "river")]));
}

#[test]
fn remove_header_key_regex_is_exhaustive_and_keeps_order() {
    let m = RemoveHeaderKeyRegex::from_settings(settings(&[("pattern", ".*(secret|SECRET).*")]))
        .unwrap();
    let mut header = request(
        "/",
        None,
        &[
            ("x-secret-token", "a"),
            ("Accept", "*/*"),
            ("My-SECRET", "b"),
            ("Host", "h"),
            ("secret", "c"),
            ("X-Other", "d"),
        ],
    );
    m.upstream_request_filter(&session("/"), &mut header, &mut ctx()).unwrap();
    assert_eq!(header.headers, headers(&[("Accept", "*/*"), ("Host", "h"), ("X-Other", "d")]));
}

#[test]
fn remove_header_matches_the_lower_case_name() {
    // The pattern is held against the lower-case form of the name.
    let m = RemoveHeaderKeyRegex::from_settings(settings(&[("pattern", "^etag$")])).unwrap();
    let mut header = request("/", None, &[("ETag", "1"), ("etagx", "2")]);
    m.upstream_request_filter(&session("/"), &mut header, &mut ctx()).unwrap();
    assert_eq!(header.headers, headers(&[("etagx", "2")]));
    let upper = RemoveHeaderKeyRegex::from_settings(settings(&[("pattern", ".*ETag.*")])).unwrap();
    let mut header = request("/", None, &[("ETag", "1")]);
    upper.upstream_request_filter(&session("/"), &mut header, &mut ctx()).unwrap();
    assert_eq!(header.headers, headers(&[("ETag", "1")]));
}

#[test]
fn url_rewrite_scenario() {
    let m = PathRewrite::from_settings(settings(&[("regex", "^/api/(.*)$"), ("rewrite", "/$1")]))
        .unwrap();
    let mut header = request("/api/v1/ping", None, &[("Accept", "*/*")]);
    m.upstream_request_filter(&session("/api/v1/ping"), &mut header, &mut ctx()).unwrap();
    assert_eq!(header, request("/v1/ping", None, &[("Accept", "*/*")]));

    let mut other = request("/other", None, &[]);
    m.upstream_request_filter(&session("/other"), &mut other, &mut ctx()).unwrap();
    assert_eq!(other, request("/other", None, &[]));
}

#[test]
fn url_rewrite_preserves_the_query() {
    let m = PathRewrite::from_settings(settings(&[("regex", "^/api/(.*)$"), ("rewrite", "/$1")]))
        .unwrap();
    let mut header = request("/api/items", Some("page=2&sort=asc"), &[]);
    m.upstream_request_filter(&session("/api/items"), &mut header, &mut ctx()).unwrap();
    assert_eq!(header.path, "/items");
    assert_eq!(header.query, Some("page=2&sort=asc".to_string()));
    assert_eq!(header.method, "GET");

    let mut unmatched = request("/static/a.css", Some("v=1"), &[]);
    m.upstream_request_filter(&session("/static/a.css"), &mut unmatched, &mut ctx()).unwrap();
    assert_eq!(unmatched, request("/static/a.css", Some("v=1"), &[]));
}

#[test]
fn url_rewrite_replaces_the_leftmost_match_only() {
    let m = PathRewrite::from_settings(settings(&[("regex", "a"), ("rewrite", "b")])).unwrap();
    let mut header = request("/banana", None, &[]);
    m.upstream_request_filter(&session("/banana"), &mut header, &mut ctx()).unwrap();
    assert_eq!(header.path, "/bbnana");
}

#[test]
fn header_discipline_scenario() {
    let remove = RequestModifier::from_settings(settings(&[
        ("kind", "remove-header-key-regex"),
        ("pattern", ".*(secret|SECRET).*"),
    ]))
    .unwrap();
    let upsert = RequestModifier::from_settings(settings(&[
        ("kind", "upsert-header"),
        ("key", "x-proxy-friend"),
        ("value", "river"),
    ]))
    .unwrap();
    let mut header = request("/", None, &[("X-Secret-Token", "a"), ("Accept", "*/*")]);
    let s = session("/");
    let mut c = ctx();
    remove.upstream_request_filter(&s, &mut header, &mut c).unwrap();
    upsert.upstream_request_filter(&s, &mut header, &mut c).unwrap();
    assert_eq!(header.headers, headers(&[("Accept", "*/*"), ("x-proxy-friend", "river")]));
    let pattern = regex::Regex::new(".*(secret|SECRET).*").unwrap();
    assert!(header.headers.entries.iter().all(|h| !pattern.is_match(&h.name.to_lowercase())));
}

#[test]
fn response_modifiers_change_the_response_headers() {
    let remove = ResponseModifier::from_settings(settings(&[
        ("kind", "remove-header-key-regex"),
        ("pattern", ".*etag.*"),
    ]))
    .unwrap();
    let upsert = ResponseModifier::from_settings(settings(&[
        ("kind", "upsert-header"),
        ("key", "x-with-love-from"),
        ("value", "river"),
    ]))
    .unwrap();
    let mut response =
        ResponseHeader { status: 200, headers: headers(&[("ETag", "abc"), ("Server", "x")]) };
    let s = session("/");
    let mut c = ctx();
    remove.upstream_response_filter(&s, &mut response, &mut c);
    upsert.upstream_response_filter(&s, &mut response, &mut c);
    assert_eq!(response.status, 200);
    assert_eq!(response.headers, headers(&[("Server", "x"), ("x-with-love-from", "river")]));
}

#[test]
fn modifier_settings_errors() {
    assert_eq!(
        RemoveHeaderKeyRegex::from_settings(settings(&[])).err(),
        Some(ProxyError::MissingConfigurationField)
    );
    assert_eq!(
        RemoveHeaderKeyRegex::from_settings(settings(&[("pattern", "(")])).err(),
        Some(ProxyError::InvalidRegex)
    );
    assert_eq!(
        RemoveHeaderKeyRegex::from_settings(settings(&[("pattern", "a"), ("extra", "b")])).err(),
        Some(ProxyError::UnknownConfigKey)
    );
    assert_eq!(
        UpsertHeader::from_settings(settings(&[("key", "a")])).err(),
        Some(ProxyError::MissingConfigurationField)
    );
    assert_eq!(
        UpsertHeader::from_settings(settings(&[("value", "a")])).err(),
        Some(ProxyError::MissingConfigurationField)
    );
    assert_eq!(
        UpsertHeader::from_settings(settings(&[("key", "a"), ("value", "b"), ("more", "c")]))
            .err(),
        Some(ProxyError::UnknownConfigKey)
    );
    assert_eq!(
        PathRewrite::from_settings(settings(&[("rewrite", "/")])).err(),
        Some(ProxyError::MissingConfigurationField)
    );
    assert_eq!(
        PathRewrite::from_settings(settings(&[("regex", "["), ("rewrite", "/")])).err(),
        Some(ProxyError::InvalidRegex)
    );
    assert_eq!(
        PathRewrite::from_settings(settings(&[("regex", "a")])).err(),
        Some(ProxyError::MissingConfigurationField)
    );
    assert!(matches!(
        RequestModifier::from_settings(settings(&[("kind", "no-such-kind")])),
        Err(ProxyError::UnknownFilterKind)
    ));
    assert!(matches!(
        RequestModifier::from_settings(settings(&[("pattern", "a")])),
        Err(ProxyError::MissingConfigurationField)
    ));
    // `url-rewrite` is a request modifier only.
    assert!(matches!(
        ResponseModifier::from_settings(settings(&[
            ("kind", "url-rewrite"),
            ("regex", "a"),
            ("rewrite", "b")
        ])),
        Err(ProxyError::UnknownFilterKind)
    ));
}

#[test]
fn header_list_remove_header_hands_back_the_first_value() {
    let mut list = headers(&[("A", "1"), ("b", "2"), ("a", "3")]);
    assert_eq!(list.remove_header("a"), Some(b"1".to_vec()));
    assert_eq!(list, headers(&[("b", "2")]));
    assert_eq!(list.remove_header("a"), None);
    assert_eq!(list.len(), 1);
    list.append_header("c".to_string(), b"4".to_vec());
    assert_eq!(list, headers(&[("b", "2"), ("c", "4")]));
    assert_eq!(HeaderList::new().len(), 0);
}

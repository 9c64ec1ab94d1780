use std::str::FromStr;
use std::sync::Arc;

use joubini::error::{Error, IntParseError, IoError, ParseError, ProxyError};
use joubini::headers::{
    add_host_header, add_x_forwarded_for_header, strip_hop_by_hop_headers, Headers,
};
use joubini::map::map_proxy_request;
use joubini::parse::{parse_header_line, parse_request_line, split_char, trim_str};
use joubini::text::ascii_lower;
use joubini::proxy::{build_proxy_request, Proxy, Request};
use joubini::server::{
    build_addr, build_request, colourise_status, get_proxy, map_proxy_uri, resolve, ProxyRequest,
};
use joubini::settings::{default_host, default_port, ProxyConfig};
use joubini::text::{parse_u16, replace_all, str_eq, str_starts_with, u16_to_string};

fn headers_with(pairs: &[(&str, &str)]) -> Headers {
    let mut h = Headers::new();
    for (name, value) in pairs {
        h.set(name, String::from(*value));
    }
    h
}

fn names_of(h: &Headers) -> Vec<String> {
    h.entries().iter().map(|e| e.0.clone()).collect()
}

fn value_of(h: &Headers, name: &str) -> Option<String> {
    h.get(name).cloned()
}

#[test]
fn test_strip_hop_by_hop_removes_the_exact_set() {
    let mut h = headers_with(&[
        ("connection", "keep-alive"),
        ("keep-alive", "timeout=5"),
        ("proxy-authenticate", "Basic"),
        ("proxy-authorization", "Basic Zm9v"),
        ("te", "trailers"),
        ("trailer", "Expires"),
        ("transfer-encoding", "chunked"),
        ("upgrade", "websocket"),
        ("x-custom-header", "custom_header_value"),
        ("accept", "*/*"),
    ]);

    strip_hop_by_hop_headers(&mut h);

    assert_eq!(
        names_of(&h),
        vec![String::from("x-custom-header"), String::from("accept")]
    );
    assert_eq!(value_of(&h, "x-custom-header"), Some(String::from("custom_header_value")));
    assert_eq!(value_of(&h, "accept"), Some(String::from("*/*")));
}

#[test]
fn test_strip_hop_by_hop_ignores_name_case() {
    let mut h = headers_with(&[
        ("Keep-Alive", "timeout=5"),
        ("UPGRADE", "websocket"),
        ("X-Custom-Header", "custom_header_value"),
    ]);

    strip_hop_by_hop_headers(&mut h);

    assert_eq!(names_of(&h), vec![String::from("x-custom-header")]);
}

#[test]
fn test_headers_match_names_without_regard_to_case() {
    let mut h = Headers::new();
    h.set("Content-Type", String::from("text/plain"));
    h.set("CONTENT-TYPE", String::from("application/json"));

    assert_eq!(h.len(), 1);
    assert_eq!(value_of(&h, "content-type"), Some(String::from("application/json")));
    assert_eq!(value_of(&h, "Content-Type"), Some(String::from("application/json")));
}

#[test]
fn test_append_keeps_repeated_headers() {
    let mut h = Headers::new();
    h.append("cookie", String::from("a=1"));
    h.append("cookie", String::from("b=2"));

    assert_eq!(h.len(), 2);
    assert_eq!(
        names_of(&h),
        vec![String::from("cookie"), String::from("cookie")]
    );
    // `get` addresses the first entry of the name.
    assert_eq!(value_of(&h, "cookie"), Some(String::from("a=1")));
}

#[test]
fn test_add_x_forwarded_for_when_absent() {
    let mut h = headers_with(&[("accept", "*/*")]);

    add_x_forwarded_for_header(&mut h, "localhost:7878").unwrap();

    assert_eq!(value_of(&h, "x-forwarded-for"), Some(String::from("localhost:7878")));
}

#[test]
fn test_append_x_forwarded_for_when_present() {
    let mut h = headers_with(&[("x-forwarded-for", "first:2323")]);

    add_x_forwarded_for_header(&mut h, "localhost:7878").unwrap();

    assert_eq!(
        value_of(&h, "x-forwarded-for"),
        Some(String::from("first:2323, localhost:7878"))
    );
}

#[test]
fn test_host_header_is_rewritten() {
    let mut h = headers_with(&[("host", "localhost:7878")]);

    add_host_header(&mut h, "localhost:3000").unwrap();

    assert_eq!(value_of(&h, "host"), Some(String::from("localhost:3000")));
    assert_eq!(h.len(), 1);
}

#[test]
fn test_host_rewrite_drops_stale_duplicates() {
    let mut h = Headers::new();
    h.append("host", String::from("localhost:7878"));
    h.append("host", String::from("stale.example"));
    h.append("accept", String::from("*/*"));

    add_host_header(&mut h, "localhost:3000").unwrap();

    assert_eq!(h.len(), 2);
    assert_eq!(
        names_of(&h),
        vec![String::from("host"), String::from("accept")]
    );
    assert_eq!(value_of(&h, "host"), Some(String::from("localhost:3000")));
}

#[test]
fn test_forwarded_for_chain_drops_stale_duplicates() {
    let mut h = Headers::new();
    h.append("x-forwarded-for", String::from("first:2323"));
    h.append("x-forwarded-for", String::from("second:4242"));

    add_x_forwarded_for_header(&mut h, "localhost:7878").unwrap();

    assert_eq!(h.len(), 1);
    assert_eq!(
        value_of(&h, "x-forwarded-for"),
        Some(String::from("first:2323, localhost:7878"))
    );
}

#[test]
fn test_build_request_transforms_headers_and_path() {
    let mut h = Headers::new();
    h.set("host", String::from("localhost:7878"));
    h.set("connection", String::from("keep-alive"));
    h.set("upgrade", String::from("websocket"));
    h.set("accept", String::from("*/*"));

    let req = ProxyRequest { uri: String::from("/baz"), headers: h };
    let proxy = ProxyConfig::from_str("baz:3003/qux").unwrap();

    let out = build_request(req, "localhost", 7878, &proxy).unwrap();

    assert_eq!(out.uri, String::from("/qux"));
    assert_eq!(value_of(&out.headers, "host"), Some(String::from("localhost:3003")));
    assert_eq!(
        value_of(&out.headers, "x-forwarded-for"),
        Some(String::from("localhost:7878"))
    );
    assert_eq!(value_of(&out.headers, "connection"), None);
    assert_eq!(value_of(&out.headers, "upgrade"), None);
    assert_eq!(value_of(&out.headers, "accept"), Some(String::from("*/*")));
}

#[test]
fn test_route_resolution_precedence() {
    let proxies = vec![
        ProxyConfig::from_str("foo:3008/fred").unwrap(),
        ProxyConfig::from_str("foo/qux:3007/thud").unwrap(),
        ProxyConfig::from_str("foo/bar:3006/baz").unwrap(),
    ];

    let chosen = get_proxy(String::from("/foo"), &proxies);
    assert_eq!(chosen.remote_port, 3008);
    assert_eq!(chosen.remote_path, String::from("/fred"));

    let chosen = get_proxy(String::from("/foo/bar"), &proxies);
    assert_eq!(chosen.remote_port, 3006);
    assert_eq!(chosen.remote_path, String::from("/baz"));

    let chosen = get_proxy(String::from("/foo/qux"), &proxies);
    assert_eq!(chosen.remote_port, 3007);
    assert_eq!(chosen.remote_path, String::from("/thud"));
}

#[test]
fn test_resolve_reports_no_match() {
    let proxies = vec![ProxyConfig::from_str("foo:3001").unwrap()];
    assert!(resolve("/bar", &proxies).is_none());
    assert!(resolve("/foo", &proxies).is_some());
}

#[test]
fn test_last_declared_route_wins_over_longest_prefix() {
    // Declaration order decides between overlapping prefixes: the catch-all
    // declared last shadows the more specific route declared first.
    let proxies = vec![
        ProxyConfig::from_str("foo/bar:3006/baz").unwrap(),
        ProxyConfig::from_str("foo:3008/fred").unwrap(),
    ];

    let chosen = get_proxy(String::from("/foo/bar"), &proxies);
    assert_eq!(chosen.remote_port, 3008);
}

#[test]
fn test_map_proxy_uri_rewrites_path() {
    let proxy = ProxyConfig::from_str("baz:3003/qux").unwrap();
    let mapped = map_proxy_uri("/baz", &proxy).unwrap();
    assert_eq!(mapped, String::from("/qux"));

    let proxy = ProxyConfig::from_str("foo:3004/bar/baz/qux").unwrap();
    let mapped = map_proxy_uri("/foo", &proxy).unwrap();
    assert_eq!(mapped, String::from("/bar/baz/qux"));
}

#[test]
fn test_map_proxy_uri_replaces_every_occurrence() {
    // A known sharp edge, kept on purpose: every textual occurrence of the
    // local path in the URI is replaced, the query string included.
    let proxy = ProxyConfig::from_str("foo:3000/x").unwrap();
    let mapped = map_proxy_uri("/foo?next=/foo", &proxy).unwrap();
    assert_eq!(mapped, String::from("/x?next=/x"));
}

#[test]
fn test_build_addr_formats_host_and_port() {
    assert_eq!(build_addr("localhost", 7878), String::from("localhost:7878"));
    assert_eq!(build_addr("127.0.0.1", 80), String::from("127.0.0.1:80"));
}

#[test]
fn test_colourise_status_by_class() {
    assert_eq!(colourise_status(200), String::from("\x1b[92m200\x1b[0m"));
    assert_eq!(colourise_status(301), String::from("\x1b[92m301\x1b[0m"));
    assert_eq!(colourise_status(404), String::from("\x1b[93m404\x1b[0m"));
    assert_eq!(colourise_status(500), String::from("\x1b[91m500\x1b[0m"));
    assert_eq!(colourise_status(101), String::from("101"));
}

#[test]
fn test_parse_u16_accepts_and_rejects_like_std() {
    assert_eq!(parse_u16("3000"), Ok(3000));
    assert_eq!(parse_u16("+80"), Ok(80));
    assert_eq!(parse_u16("65535"), Ok(65535));
    assert_eq!(parse_u16("65536"), Err(IntParseError::PosOverflow));
    assert_eq!(parse_u16(""), Err(IntParseError::Empty));
    assert_eq!(parse_u16("+"), Err(IntParseError::InvalidDigit));
    assert_eq!(parse_u16("-1"), Err(IntParseError::InvalidDigit));
    assert_eq!(parse_u16("80a"), Err(IntParseError::InvalidDigit));
}

#[test]
fn test_u16_to_string_formats_decimal() {
    assert_eq!(u16_to_string(0), String::from("0"));
    assert_eq!(u16_to_string(80), String::from("80"));
    assert_eq!(u16_to_string(65535), String::from("65535"));
}

#[test]
fn test_text_helpers() {
    assert!(str_starts_with("/foo/bar", "/foo"));
    assert!(!str_starts_with("/foo", "/foo/bar"));
    assert!(str_eq("abc", "abc"));
    assert!(!str_eq("abc", "abd"));
    assert_eq!(replace_all("/foo/foo", "/foo", "/qux"), String::from("/qux/qux"));
    assert_eq!(replace_all("/bar", "/foo", "/qux"), String::from("/bar"));
}

#[test]
fn test_error_messages_by_class() {
    let io = Error::IoError(IoError::StdIo(String::from("No such file or directory (os error 2)")));
    assert_eq!(
        io.message(),
        String::from("IO error: Standard IO error: No such file or directory (os error 2)")
    );

    let parse = Error::ParseError(ParseError::FileConfig(String::from("missing field")));
    assert_eq!(
        parse.message(),
        String::from("Parse error: Unable to parse config from config file: missing field")
    );

    let upstream = Error::ProxyError(ProxyError::RequestFailed(String::from("connection refused")));
    assert_eq!(
        upstream.message(),
        String::from("Proxy error: Request failed: connection refused")
    );

    let overflow = Error::ParseError(ParseError::ParseInt(IntParseError::PosOverflow));
    assert_eq!(
        overflow.message(),
        String::from("Parse error: Parse int error: number too large to fit in target type")
    );

    let empty = Error::ParseError(ParseError::ParseInt(IntParseError::Empty));
    assert_eq!(
        empty.message(),
        String::from("Parse error: Parse int error: cannot parse integer from empty string")
    );
}

#[test]
fn test_defaults() {
    assert_eq!(default_host(), String::from("127.0.0.1"));
    assert_eq!(default_port(), 80);
}

#[test]
fn test_map_proxy_request_rewrites_path_and_port() {
    let mut request = Request::new();
    request.http_method = String::from("GET");
    request.path = String::from("/foo");
    request.http_version = String::from("HTTP/1.1");

    let proxies = Arc::new(vec![
        Proxy::from_str("foo:3001/shadowed").unwrap(),
        Proxy::from_str("foo:3002/bar").unwrap(),
    ]);

    // The last declared matching route wins here too.
    let mapped = map_proxy_request(request, proxies).unwrap();

    assert_eq!(mapped.path, String::from("/bar"));
    assert_eq!(mapped.port, 3002);
    assert_eq!(mapped.http_method, String::from("GET"));
}

#[test]
fn test_map_proxy_request_without_match_is_an_error() {
    let mut request = Request::new();
    request.http_method = String::from("GET");
    request.path = String::from("/elsewhere");
    request.http_version = String::from("HTTP/1.1");

    let proxies = Arc::new(vec![Proxy::from_str("foo:3001/bar").unwrap()]);

    let outcome = map_proxy_request(request, proxies);

    assert_eq!(
        outcome.unwrap_err().message(),
        String::from("Proxy error: No matching proxy for the request path.")
    );
}

#[test]
fn test_build_proxy_request_serializes_http1() {
    let mut request = Request::new();
    request.http_method = String::from("POST");
    request.path = String::from("/bar");
    request.http_version = String::from("HTTP/1.1");
    request.headers.set("host", String::from("localhost:3000"));
    request.headers.set("content-length", String::from("4"));
    request.body = Some(String::from("data"));

    let text = build_proxy_request(request).unwrap();

    assert_eq!(
        text,
        String::from(
            "POST /bar HTTP/1.1\r\nhost: localhost:3000\r\ncontent-length: 4\r\nConnection: close\r\n\r\ndata"
        )
    );
}

#[test]
fn test_parse_request_line_splits_and_trims() {
    let parsed = parse_request_line("GET /foo HTTP/1.1\r\n").unwrap();
    assert_eq!(parsed.0, String::from("GET"));
    assert_eq!(parsed.1, String::from("/foo"));
    assert_eq!(parsed.2, String::from("HTTP/1.1"));

    assert!(parse_request_line("nonsense\r\n").is_none());
}

#[test]
fn test_parse_header_line_lowercases_name() {
    let parsed = parse_header_line("Content-Length: 42\r\n").unwrap();
    assert_eq!(parsed.0, String::from("content-length"));
    assert_eq!(parsed.1, String::from("42"));

    assert!(parse_header_line("no separator here\r\n").is_none());
}

#[test]
fn test_scenario_root_route_forwards_unchanged() {
    // Route ":3000": a request for "/" keeps its path and is addressed to
    // port 3000 on the configured host.
    let proxies = vec![ProxyConfig::from_str(":3000").unwrap()];
    let chosen = get_proxy(String::from("/"), &proxies);
    assert_eq!(chosen.remote_port, 3000);

    let req = ProxyRequest { uri: String::from("/"), headers: Headers::new() };
    let out = build_request(req, "localhost", 7878, chosen).unwrap();
    assert_eq!(out.uri, String::from("/"));
    assert_eq!(build_addr("localhost", chosen.remote_port), String::from("localhost:3000"));
}

#[test]
fn test_scenario_renamed_route_forwards_to_remote_path() {
    // Route "baz:3003/qux": a request for "/baz" is forwarded to "/qux" on
    // port 3003, with the host header naming the backend.
    let proxies = vec![ProxyConfig::from_str("baz:3003/qux").unwrap()];
    let chosen = get_proxy(String::from("/baz"), &proxies);
    assert_eq!(chosen.remote_port, 3003);

    let req = ProxyRequest { uri: String::from("/baz"), headers: Headers::new() };
    let out = build_request(req, "localhost", 7878, chosen).unwrap();
    assert_eq!(out.uri, String::from("/qux"));
    assert_eq!(value_of(&out.headers, "host"), Some(String::from("localhost:3003")));
}

#[test]
fn test_split_trim_and_lower() {
    let parts = split_char("a b  c", ' ');
    assert_eq!(
        parts,
        vec![
            String::from("a"),
            String::from("b"),
            String::from(""),
            String::from("c")
        ]
    );
    assert_eq!(trim_str("  x\r\n"), String::from("x"));
    assert_eq!(trim_str("\u{b}\u{c}x\u{a0}\u{2003}"), String::from("x"));
    assert_eq!(ascii_lower("Keep-Alive"), String::from("keep-alive"));
}

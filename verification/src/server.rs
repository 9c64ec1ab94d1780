//! The per-request pipeline of the proxy: resolving the route a request path
//! matches, rewriting the request's headers and path for the chosen backend,
//! and formatting what the connection log prints.

use crate::error::Error;
use crate::headers::{
    add_host_header, add_x_forwarded_for_header, is_hop_by_hop, spec_add_forwarded_for,
    spec_set, spec_strip_hop_by_hop, strip_hop_by_hop_headers, HeaderEntry, Headers,
};
use crate::settings::{proxies_view, ProxyConfig, ProxyConfigView};
use crate::text::{replace_all, spec_ascii_lower, spec_replace, spec_u16_string, u16_to_string};
use vstd::prelude::*;

verus! {

/// The address text `<hostname>:<port>`.
pub open spec fn spec_addr(hostname: Seq<char>, port: u16) -> Seq<char> {
    hostname + ":"@ + spec_u16_string(port as nat)
}

/// Formats `<hostname>:<port>`.
pub fn build_addr(hostname: &str, port: u16) -> (r: String)
    ensures
        r@ == spec_addr(hostname@, port),
{
    let mut r = String::from_str(hostname);
    r.append(":");
    r.append(u16_to_string(port).as_str());
    r
}

/// The route the proxy chooses for a request path: among the routes whose
/// local path is a literal prefix of the request path, the one declared last
/// wins; `None` when no route matches.
pub open spec fn spec_resolve(ps: Seq<ProxyConfigView>, path: Seq<char>) -> Option<int>
    decreases ps.len(),
{
    if ps.len() == 0 {
        None
    } else if ps.last().local_path.is_prefix_of(path) {
        Some(ps.len() - 1)
    } else {
        spec_resolve(ps.drop_last(), path)
    }
}

/// Law: route resolution is last-declared-wins. The chosen route's local path
/// is a prefix of the request path, every route declared after it does not
/// match, and `None` means no route matches at all. Being declared later
/// always beats being more specific.
pub proof fn lemma_resolve_last_declared_wins(ps: Seq<ProxyConfigView>, path: Seq<char>)
    ensures
        match spec_resolve(ps, path) {
            Some(i) => 0 <= i < ps.len() && ps[i].local_path.is_prefix_of(path) && forall|j: int|
                i < j < ps.len() ==> !(#[trigger] ps[j].local_path.is_prefix_of(path)),
            None => forall|j: int|
                0 <= j < ps.len() ==> !(#[trigger] ps[j].local_path.is_prefix_of(path)),
        },
    decreases ps.len(),
{
    if ps.len() > 0 && !ps.last().local_path.is_prefix_of(path) {
        lemma_resolve_last_declared_wins(ps.drop_last(), path);
        assert(forall|j: int| 0 <= j < ps.len() - 1 ==> ps[j] == ps.drop_last()[j]);
    }
}

/// Resolves the route for a request path: the last declared route whose local
/// path is a literal prefix of it, or `None` when no route matches, which the
/// caller turns into a failure for that one request.
pub fn resolve<'a>(req_uri: &str, proxies: &'a [ProxyConfig]) -> (r: Option<&'a ProxyConfig>)
    ensures
        match r {
            Some(p) => spec_resolve(proxies_view(proxies@), req_uri@) matches Some(i) && p == &proxies@[i],
            None => spec_resolve(proxies_view(proxies@), req_uri@) is None,
        },
{
    proof {
        lemma_resolve_last_declared_wins(proxies_view(proxies@), req_uri@);
    }
    let n = proxies.len();
    let mut i: usize = n;
    while i > 0
        invariant
            0 <= i <= n,
            n == proxies@.len(),
            forall|j: int|
                i <= j < n ==> !(#[trigger] proxies_view(proxies@)[j].local_path.is_prefix_of(
                    req_uri@,
                )),
            match spec_resolve(proxies_view(proxies@), req_uri@) {
                Some(k) => 0 <= k < n && proxies_view(proxies@)[k].local_path.is_prefix_of(req_uri@)
                    && forall|j: int|
                    k < j < n ==> !(#[trigger] proxies_view(proxies@)[j].local_path.is_prefix_of(
                        req_uri@,
                    )),
                None => forall|j: int|
                    0 <= j < n ==> !(#[trigger] proxies_view(proxies@)[j].local_path.is_prefix_of(
                        req_uri@,
                    )),
            },
        decreases i,
    {
        i = i - 1;
        proof {
            assert(proxies_view(proxies@)[i as int] == proxies@[i as int]@);
        }
        if crate::text::str_starts_with(req_uri, proxies[i].local_path.as_str()) {
            proof {
                let pv = proxies_view(proxies@);
                assert(pv[i as int].local_path.is_prefix_of(req_uri@));
                if let Some(k) = spec_resolve(pv, req_uri@) {
                    if k < i as int {
                        assert(!(pv[i as int].local_path.is_prefix_of(req_uri@)));
                    }
                    if k > i as int {
                        assert(!(pv[k].local_path.is_prefix_of(req_uri@)));
                    }
                    assert(k == i as int);
                }
            }
            return Some(&proxies[i]);
        }
    }
    None
}

/// Picks the route for a request path: the last declared route whose local
/// path is a literal prefix of it. The caller guarantees that one matches;
/// a request that no route matches fails before this point.
pub fn get_proxy<'a>(req_uri: String, proxies: &'a [ProxyConfig]) -> (r: &'a ProxyConfig)
    requires
        spec_resolve(proxies_view(proxies@), req_uri@) is Some,
    ensures
        spec_resolve(proxies_view(proxies@), req_uri@) matches Some(i) && r == &proxies@[i],
{
    match resolve(req_uri.as_str(), proxies) {
        Some(p) => p,
        None => {
            proof {
                assert(false);
            }
            &proxies[0]
        },
    }
}

/// Rewrites a request's path for the chosen route: every occurrence of the
/// route's local path in the text is replaced with its remote path, the way
/// std replaces a literal pattern.
pub fn map_proxy_uri(req_uri: &str, proxy: &ProxyConfig) -> (r: Result<String, Error>)
    requires
        proxy@.wf(),
    ensures
        r matches Ok(u) && u@ == spec_replace(req_uri@, proxy@.local_path, proxy@.remote_path),
{
    Ok(replace_all(req_uri, proxy.local_path.as_str(), proxy.remote_path.as_str()))
}

/// What the connection log prints for a status code: the decimal code inside
/// a colour for its class (green for success and redirects, yellow for client
/// errors, red for server errors, plain otherwise).
pub open spec fn spec_colourised_status(status_code: u16) -> Seq<char> {
    if 200 <= status_code <= 399 {
        "\u{1b}[92m"@ + spec_u16_string(status_code as nat) + "\u{1b}[0m"@
    } else if 400 <= status_code <= 499 {
        "\u{1b}[93m"@ + spec_u16_string(status_code as nat) + "\u{1b}[0m"@
    } else if 500 <= status_code <= 599 {
        "\u{1b}[91m"@ + spec_u16_string(status_code as nat) + "\u{1b}[0m"@
    } else {
        spec_u16_string(status_code as nat)
    }
}

/// Renders a status code in the colour of its class for the connection log.
pub fn colourise_status(status_code: u16) -> (r: String)
    ensures
        r@ == spec_colourised_status(status_code),
{
    let digits = u16_to_string(status_code);
    if 200 <= status_code && status_code <= 399 {
        String::from_str("\u{1b}[92m").concat(digits.as_str()).concat("\u{1b}[0m")
    } else if 400 <= status_code && status_code <= 499 {
        String::from_str("\u{1b}[93m").concat(digits.as_str()).concat("\u{1b}[0m")
    } else if 500 <= status_code && status_code <= 599 {
        String::from_str("\u{1b}[91m").concat(digits.as_str()).concat("\u{1b}[0m")
    } else {
        digits
    }
}

/// The one request the pipeline transforms: its path and its headers. The
/// method, protocol version and body stream pass the proxy unchanged and
/// stay with the HTTP engine.
#[derive(Debug)]
pub struct ProxyRequest {
    pub uri: String,
    pub headers: Headers,
}

/// What the outbound header map holds: the inbound headers without the
/// hop-by-hop entries, with the forwarded-for chain extended by the proxy's
/// address `<host>:<local_port>`, and the host header set to the backend's
/// address `<host>:<remote_port>`.
pub open spec fn spec_build_headers(
    h: Seq<HeaderEntry>,
    host: Seq<char>,
    local_port: u16,
    remote_port: u16,
) -> Seq<HeaderEntry> {
    spec_set(
        spec_add_forwarded_for(spec_strip_hop_by_hop(h), spec_addr(host, local_port)),
        "host"@,
        spec_addr(host, remote_port),
    )
}

/// Builds the outbound request for the chosen route: hop-by-hop headers are
/// stripped, the forwarded-for chain is extended with the proxy's address,
/// the host header is set to the backend's address, and the path is rewritten
/// from the route's local path to its remote path.
pub fn build_request(req: ProxyRequest, host: &str, local_port: u16, proxy: &ProxyConfig) -> (r:
    Result<ProxyRequest, Error>)
    requires
        proxy@.wf(),
    ensures
        r matches Ok(out) && out.uri@ == spec_replace(
            req.uri@,
            proxy@.local_path,
            proxy@.remote_path,
        ) && out.headers@ == spec_build_headers(
            req.headers@,
            host@,
            local_port,
            proxy.remote_port,
        ),
{
    let mut req = req;
    let local_addr = build_addr(host, local_port);
    let remote_addr = build_addr(host, proxy.remote_port);

    strip_hop_by_hop_headers(&mut req.headers);
    if let Err(e) = add_x_forwarded_for_header(&mut req.headers, local_addr.as_str()) {
        return Err(e);
    }
    if let Err(e) = add_host_header(&mut req.headers, remote_addr.as_str()) {
        return Err(e);
    }

    let mapped_uri = match map_proxy_uri(req.uri.as_str(), proxy) {
        Ok(u) => u,
        Err(e) => {
            return Err(e);
        },
    };
    req.uri = mapped_uri;

    Ok(req)
}

/// Law: no hop-by-hop header survives the outbound transformation, under any
/// ASCII spelling of its name, whatever the inbound request carried.
pub proof fn lemma_outbound_has_no_hop_by_hop(
    h: Seq<HeaderEntry>,
    host: Seq<char>,
    local_port: u16,
    remote_port: u16,
)
    ensures
        forall|i: int|
            0 <= i < spec_build_headers(h, host, local_port, remote_port).len() ==> !is_hop_by_hop(
                spec_ascii_lower(#[trigger] spec_build_headers(h, host, local_port, remote_port)[i].0),
            ),
{
    crate::headers::lemma_strip_removes_hop_by_hop(h);
    crate::headers::lemma_written_names_lower();
    reveal_strlit("connection");
    reveal_strlit("keep-alive");
    reveal_strlit("proxy-authenticate");
    reveal_strlit("proxy-authorization");
    reveal_strlit("te");
    reveal_strlit("trailer");
    reveal_strlit("transfer-encoding");
    reveal_strlit("upgrade");
    reveal_strlit("x-forwarded-for");
    reveal_strlit("host");
    assert(("x-forwarded-for"@).len() == 15);
    assert(("host"@).len() == 4);
    assert(("connection"@).len() == 10);
    assert(("keep-alive"@).len() == 10);
    assert(("proxy-authenticate"@).len() == 18);
    assert(("proxy-authorization"@).len() == 19);
    assert(("te"@).len() == 2);
    assert(("trailer"@).len() == 7);
    assert(("transfer-encoding"@).len() == 17);
    assert(("upgrade"@).len() == 7);
    assert(!is_hop_by_hop(spec_ascii_lower("x-forwarded-for"@)));
    assert(!is_hop_by_hop(spec_ascii_lower("host"@)));
    let stripped = spec_strip_hop_by_hop(h);
    let local_addr = spec_addr(host, local_port);
    let fv = crate::headers::spec_forwarded_value(stripped, local_addr);
    let forwarded = spec_add_forwarded_for(stripped, local_addr);
    crate::headers::lemma_set_entries_from(stripped, "x-forwarded-for"@, fv);
    assert forall|i: int| 0 <= i < forwarded.len() implies !is_hop_by_hop(
        spec_ascii_lower(#[trigger] forwarded[i].0),
    ) by {
        if forwarded[i] != ("x-forwarded-for"@, fv) {
            assert(stripped.contains(forwarded[i]));
            let j = choose|j: int|
                0 <= j < stripped.len() && #[trigger] stripped[j] == forwarded[i];
            assert(!is_hop_by_hop(spec_ascii_lower(stripped[j].0)));
        }
    }
    let built = spec_build_headers(h, host, local_port, remote_port);
    let remote_addr = spec_addr(host, remote_port);
    crate::headers::lemma_set_entries_from(forwarded, "host"@, remote_addr);
    assert forall|i: int| 0 <= i < built.len() implies !is_hop_by_hop(
        spec_ascii_lower(#[trigger] built[i].0),
    ) by {
        if built[i] != ("host"@, remote_addr) {
            assert(forwarded.contains(built[i]));
            let j = choose|j: int| 0 <= j < forwarded.len() && #[trigger] forwarded[j] == built[i];
            assert(!is_hop_by_hop(spec_ascii_lower(forwarded[j].0)));
        }
    }
}

} // verus!

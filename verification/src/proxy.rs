//! The stream-level relay's data model: a route (`Proxy`), a decoded request
//! (`Request`), and the serializer that turns a request back into HTTP/1.1
//! text for the backend.

use crate::error::Error;
use crate::headers::{HeaderEntry, Headers};
use crate::settings::{parse_proxy_config, spec_parse_proxy, ProxyConfigView};
use crate::text::str_eq;
use vstd::prelude::*;

verus! {

/// One configured mapping from a local path prefix to a backend port and
/// backend path, as the stream-level relay holds it.
#[derive(Debug)]
pub struct Proxy {
    pub local_path: String,
    pub remote_port: u16,
    pub remote_path: String,
}

impl View for Proxy {
    type V = ProxyConfigView;

    open spec fn view(&self) -> ProxyConfigView {
        ProxyConfigView {
            local_path: self.local_path@,
            remote_port: self.remote_port,
            remote_path: self.remote_path@,
        }
    }
}

/// The views of a sequence of relay routes.
pub open spec fn proxy_table_view(v: Seq<Proxy>) -> Seq<ProxyConfigView> {
    v.map_values(|p: Proxy| p@)
}

impl Clone for Proxy {
    /// An identical copy of the route.
    fn clone(&self) -> (r: Proxy)
        ensures
            r@ == self@,
    {
        Proxy {
            local_path: self.local_path.clone(),
            remote_port: self.remote_port,
            remote_path: self.remote_path.clone(),
        }
    }
}

impl PartialEq for Proxy {
    fn eq(&self, other: &Proxy) -> (r: bool) {
        str_eq(self.local_path.as_str(), other.local_path.as_str()) && self.remote_port
            == other.remote_port && str_eq(self.remote_path.as_str(), other.remote_path.as_str())
    }
}

impl vstd::std_specs::cmp::PartialEqSpecImpl for Proxy {
    open spec fn obeys_eq_spec() -> bool {
        true
    }

    open spec fn eq_spec(&self, other: &Proxy) -> bool {
        self@ =~= other@
    }
}

/// Parses one route definition, under the same grammar as
/// `parse_proxy_config`: `[<local_path>]:<remote_port>[/<remote_path>]`.
pub fn parse_proxy(s: &str) -> (r: Result<Proxy, Error>)
    ensures
        r is Ok <==> spec_parse_proxy(s@) is Ok,
        r matches Ok(p) ==> spec_parse_proxy(s@) matches Ok(v) && p@ == v,
        r matches Err(e) ==> spec_parse_proxy(s@) matches Err(pe) && e == Error::ParseError(pe),
{
    match parse_proxy_config(s) {
        Ok(p) => Ok(
            Proxy {
                local_path: p.local_path,
                remote_port: p.remote_port,
                remote_path: p.remote_path,
            },
        ),
        Err(e) => Err(e),
    }
}

impl std::str::FromStr for Proxy {
    type Err = Error;

    /// Parses one route definition; see `parse_proxy`.
    fn from_str(s: &str) -> Result<Proxy, Error> {
        parse_proxy(s)
    }
}

/// One request decoded off a client stream.
#[derive(Debug)]
pub struct Request {
    pub http_method: String,
    pub path: String,
    pub http_version: String,
    pub headers: Headers,
    pub body: Option<String>,
    pub port: u16,
}

/// The mathematical value of a decoded request.
#[verifier::ext_equal]
pub struct RequestView {
    pub http_method: Seq<char>,
    pub path: Seq<char>,
    pub http_version: Seq<char>,
    pub headers: Seq<HeaderEntry>,
    pub body: Option<Seq<char>>,
    pub port: u16,
}

impl View for Request {
    type V = RequestView;

    open spec fn view(&self) -> RequestView {
        RequestView {
            http_method: self.http_method@,
            path: self.path@,
            http_version: self.http_version@,
            headers: self.headers@,
            body: match self.body {
                Some(ref b) => Some(b@),
                None => None,
            },
            port: self.port,
        }
    }
}

/// A request before anything is decoded into it: every part empty, no body,
/// port not yet chosen.
pub open spec fn spec_empty_request() -> RequestView {
    RequestView {
        http_method: Seq::<char>::empty(),
        path: Seq::<char>::empty(),
        http_version: Seq::<char>::empty(),
        headers: Seq::<HeaderEntry>::empty(),
        body: None,
        port: 0,
    }
}

impl Request {
    /// A request before anything is decoded into it.
    pub fn new() -> (r: Request)
        ensures
            r@ == spec_empty_request(),
    {
        let r = Request {
            http_method: String::new(),
            path: String::new(),
            http_version: String::new(),
            headers: Headers::new(),
            body: None,
            port: 0,
        };
        proof {
            assert(r@ =~= spec_empty_request());
        }
        r
    }
}

/// The header block of a serialized request: one `name: value` line per
/// entry, joined with `\r\n`.
pub open spec fn spec_header_block(h: Seq<HeaderEntry>) -> Seq<char>
    decreases h.len(),
{
    if h.len() == 0 {
        Seq::<char>::empty()
    } else if h.len() == 1 {
        h[0].0 + ": "@ + h[0].1
    } else {
        spec_header_block(h.drop_last()) + "\r\n"@ + h.last().0 + ": "@ + h.last().1
    }
}

/// The HTTP/1.1 text of a request toward the backend: the request line, the
/// header block, a `Connection: close` header closing the exchange, and the
/// body, if any.
pub open spec fn spec_serialized_request(r: RequestView) -> Seq<char> {
    r.http_method + " "@ + r.path + " "@ + r.http_version + "\r\n"@ + spec_header_block(r.headers)
        + "\r\nConnection: close\r\n\r\n"@ + (match r.body {
        Some(b) => b,
        None => Seq::<char>::empty(),
    })
}

/// Serializes a request as the HTTP/1.1 text sent to the backend.
pub fn build_proxy_request(request: Request) -> (r: Result<String, Error>)
    ensures
        r matches Ok(s) && s@ == spec_serialized_request(request@),
{
    let mut out = String::new();
    out.append(request.http_method.as_str());
    out.append(" ");
    out.append(request.path.as_str());
    out.append(" ");
    out.append(request.http_version.as_str());
    out.append("\r\n");

    let entries = request.headers.entries();
    let n = entries.len();
    let ghost head = out@;
    let mut i: usize = 0;
    proof {
        assert(request.headers@.take(0) =~= Seq::<HeaderEntry>::empty());
    }
    while i < n
        invariant
            i <= n,
            n == request.headers@.len(),
            entries@.map_values(|e: (String, String)| (e.0@, e.1@)) == request.headers@,
            out@ == head + spec_header_block(request.headers@.take(i as int)),
        decreases n - i,
    {
        proof {
            assert(request.headers@[i as int] == (entries@[i as int].0@, entries@[i as int].1@));
        }
        if i > 0 {
            out.append("\r\n");
        }
        out.append(entries[i].0.as_str());
        out.append(": ");
        out.append(entries[i].1.as_str());
        proof {
            let ghost t1 = request.headers@.take(i + 1 as int);
            assert(t1.drop_last() =~= request.headers@.take(i as int));
            assert(t1.last() == request.headers@[i as int]);
            assert(out@ =~= head + spec_header_block(t1));
        }
        i = i + 1;
    }
    proof {
        assert(request.headers@.take(n as int) =~= request.headers@);
    }

    out.append("\r\nConnection: close\r\n\r\n");

    if let Some(body) = &request.body {
        out.append(body.as_str());
    }
    proof {
        assert(out@ =~= spec_serialized_request(request@));
    }
    Ok(out)
}

} // verus!

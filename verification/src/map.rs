//! Mapping one decoded request onto the route table of the stream-level
//! relay: the request's path is rewritten and its backend port chosen, under
//! the same last-declared-wins policy the whole proxy resolves routes with.

use crate::error::{Error, ProxyError};
use crate::proxy::{proxy_table_view, Proxy, Request};
use crate::server::{lemma_resolve_last_declared_wins, spec_resolve};
use crate::text::{replace_all, spec_replace, str_starts_with};
use std::sync::Arc;
use vstd::prelude::*;

verus! {

/// Rewrites a decoded request for its backend: the last declared route whose
/// local path prefixes the request path is chosen, every occurrence of that
/// local path in the request path is replaced with the route's remote path,
/// and the request's port becomes the route's backend port. A request that no
/// route matches fails on its own with `NoMatch`. The caller guarantees a
/// well-formed table.
pub fn map_proxy_request(request: Request, proxies: Arc<Vec<Proxy>>) -> (r: Result<Request, Error>)
    requires
        forall|i: int| 0 <= i < proxies@.len() ==> (#[trigger] proxies@[i]@).wf(),
    ensures
        match spec_resolve(proxy_table_view(proxies@), request.path@) {
            Some(i) => r matches Ok(out) && {
                &&& out.path@ == spec_replace(
                    request.path@,
                    proxy_table_view(proxies@)[i].local_path,
                    proxy_table_view(proxies@)[i].remote_path,
                )
                &&& out.port == proxy_table_view(proxies@)[i].remote_port
                &&& out.http_method@ == request.http_method@
                &&& out.http_version@ == request.http_version@
                &&& out.headers@ == request.headers@
                &&& out.body == request.body
            },
            None => r matches Err(e) && e == Error::ProxyError(ProxyError::NoMatch),
        },
{
    proof {
        lemma_resolve_last_declared_wins(proxy_table_view(proxies@), request.path@);
    }
    let mut req = request;
    let n = proxies.len();
    let mut i: usize = n;
    while i > 0
        invariant
            0 <= i <= n,
            n == proxies@.len(),
            req == request,
            forall|j: int| 0 <= j < proxies@.len() ==> (#[trigger] proxies@[j]@).wf(),
            forall|j: int|
                i <= j < n ==> !(#[trigger] proxy_table_view(proxies@)[j].local_path.is_prefix_of(
                    request.path@,
                )),
            match spec_resolve(proxy_table_view(proxies@), request.path@) {
                Some(k) => 0 <= k < n && proxy_table_view(proxies@)[k].local_path.is_prefix_of(
                    request.path@,
                ) && forall|j: int|
                    k < j < n ==> !(#[trigger] proxy_table_view(
                        proxies@,
                    )[j].local_path.is_prefix_of(request.path@)),
                None => forall|j: int|
                    0 <= j < n ==> !(#[trigger] proxy_table_view(proxies@)[j].local_path.is_prefix_of(
                        request.path@,
                    )),
            },
        decreases i,
    {
        i = i - 1;
        proof {
            assert(proxy_table_view(proxies@)[i as int] == proxies@[i as int]@);
        }
        if str_starts_with(req.path.as_str(), proxies[i].local_path.as_str()) {
            proof {
                let ptv = proxy_table_view(proxies@);
                assert(ptv[i as int].local_path.is_prefix_of(request.path@));
                if let Some(k) = spec_resolve(ptv, request.path@) {
                    if k < i as int {
                        assert(!(ptv[i as int].local_path.is_prefix_of(request.path@)));
                    }
                    if k > i as int {
                        assert(!(ptv[k].local_path.is_prefix_of(request.path@)));
                    }
                    assert(k == i as int);
                }
            }
            let mapped = replace_all(
                req.path.as_str(),
                proxies[i].local_path.as_str(),
                proxies[i].remote_path.as_str(),
            );
            req.path = mapped;
            req.port = proxies[i].remote_port;
            return Ok(req);
        }
    }
    Err(Error::ProxyError(ProxyError::NoMatch))
}

} // verus!

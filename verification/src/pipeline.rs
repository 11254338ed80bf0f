//! The per-request forwarding pipeline: from an inbound request and the
//! routing table to an equivalent outbound request, and from the upstream
//! response back to the client, with hop-by-hop hygiene on both legs and
//! the body streamed through in order.

use vstd::prelude::*;
use vstd::string::*;
use vstd::seq_lib::*;
use crate::table::{RoutingTable, Route, first_match};
use crate::text::lower;
use crate::headers::{Header, strip_connection, first_host, forward_headers, host_of,
    append_forwarded_for};
use crate::error::ProxyError;
use crate::uri::{uri_valid, parse_uri};

verus! {

/// The transient inbound request, as the pipeline sees it: everything the
/// forwarding decisions read. The body is streamed separately, never
/// materialized here.
pub struct ProxyRequest {
    pub path_and_query: String,
    pub headers: Vec<Header>,
    pub peer_ip: Option<String>,
}

/// The outbound request the pipeline builds: the parsed target, its text,
/// the forwarded headers, and the demand that the upstream response not be
/// decompressed on the way back.
#[derive(Debug)]
pub struct OutboundRequest {
    pub target: actix_web::http::Uri,
    pub target_text: String,
    pub headers: Vec<Header>,
    pub no_decompress: bool,
}

/// The value of the request's first Host header, if any.
pub open spec fn req_host(req: ProxyRequest) -> Option<Seq<char>> {
    first_host(req.headers.deep_view())
}

/// The upstream the table resolves for the request: the first match
/// against the lowercased host.
pub open spec fn req_upstream(table: Seq<Route>, req: ProxyRequest) -> Option<Seq<char>> {
    match req_host(req) {
        Some(host) => first_match(table, lower(host)),
        None => None,
    }
}

/// The outbound target text: the resolved upstream base followed by the
/// original path and query, verbatim.
pub open spec fn req_target(table: Seq<Route>, req: ProxyRequest) -> Seq<char>
    recommends
        req_upstream(table, req) is Some,
{
    req_upstream(table, req).unwrap() + req.path_and_query@
}

/// The headers the outbound request carries: every inbound header except
/// `Connection`, in order and with duplicates, then one appended
/// `X-Forwarded-For` entry when the peer address is known.
pub open spec fn outbound_headers(
    hs: Seq<(Seq<char>, Seq<char>)>,
    peer_ip: Option<Seq<char>>,
) -> Seq<(Seq<char>, Seq<char>)> {
    match peer_ip {
        Some(ip) => strip_connection(hs).push(("x-forwarded-for"@, ip)),
        None => strip_connection(hs),
    }
}

/// The hop-by-hop `Connection` header is absent from the outbound request,
/// whatever the inbound carried: the strip removed every such entry, and
/// the appended forwarding header is not `Connection`.
pub proof fn lemma_outbound_headers_clean(
    hs: Seq<(Seq<char>, Seq<char>)>,
    peer_ip: Option<Seq<char>>,
)
    ensures
        forall|i: int| 0 <= i < outbound_headers(hs, peer_ip).len()
            ==> !crate::headers::is_connection(#[trigger] outbound_headers(hs, peer_ip)[i]),
{
    crate::headers::lemma_strip_connection_clean(hs);
    match peer_ip {
        Some(ip) => {
            assert(!crate::headers::is_connection(("x-forwarded-for"@, ip))) by {
                reveal_strlit("x-forwarded-for");
                reveal_strlit("connection");
                assert(lower("x-forwarded-for"@).len() == 15);
            }
            assert(forall|i: int| 0 <= i < strip_connection(hs).len()
                ==> outbound_headers(hs, peer_ip)[i] == strip_connection(hs)[i]);
        },
        None => {},
    }
}

/// Build the forwarding plan for one request, or say exactly why none
/// exists. No outbound call is attempted unless a plan comes back.
pub fn plan_forward(table: &RoutingTable, req: &ProxyRequest) -> (r: Result<
    OutboundRequest,
    ProxyError,
>)
    ensures
        req_host(*req) is None ==> r matches Err(ProxyError::MissingHost),
        req_host(*req) is Some && req_upstream(table@, *req) is None ==> (r matches Err(
            ProxyError::UnknownHost(h),
        ) && h@ == req_host(*req).unwrap()),
        req_upstream(table@, *req) is Some && !uri_valid(req_target(table@, *req))
            ==> r matches Err(ProxyError::UriConstructionError(_)),
        req_upstream(table@, *req) is Some && uri_valid(req_target(table@, *req)) ==> (r matches Ok(
            out,
        ) && out.target_text@ == req_target(table@, *req) && out.headers.deep_view()
            == outbound_headers(req.headers.deep_view(), req.peer_ip.deep_view())
            && out.no_decompress),
{
    let host = match host_of(&req.headers) {
        Some(h) => h,
        None => {
            return Err(ProxyError::MissingHost);
        },
    };
    let upstream = match table.resolve(host.as_str()) {
        Some(u) => u,
        None => {
            return Err(ProxyError::UnknownHost(host));
        },
    };
    let mut text = upstream;
    text.append(req.path_and_query.as_str());
    let target = match parse_uri(text.as_str()) {
        Ok(u) => u,
        Err(m) => {
            return Err(ProxyError::UriConstructionError(m));
        },
    };
    let mut headers = forward_headers(&req.headers);
    match &req.peer_ip {
        Some(ip) => append_forwarded_for(&mut headers, ip.as_str()),
        None => {},
    }
    Ok(OutboundRequest { target, target_text: text, headers, no_decompress: true })
}

/// The response the client receives for a plain request: the upstream
/// status unchanged — redirects included, never followed — and the
/// upstream headers with every `Connection` entry removed.
#[derive(Debug)]
pub struct ClientResponse {
    pub status: u16,
    pub headers: Vec<Header>,
}

/// Build the client's response head from the upstream's, verbatim but for
/// hop-by-hop hygiene.
pub fn plan_response(status: u16, upstream_headers: &Vec<Header>) -> (r: ClientResponse)
    ensures
        r.status == status,
        r.headers.deep_view() == strip_connection(upstream_headers.deep_view()),
{
    ClientResponse { status, headers: forward_headers(upstream_headers) }
}

/// Append one relayed body chunk to the stream already delivered: nothing
/// reordered, nothing dropped, nothing invented.
pub fn relay_chunk(delivered: &mut Vec<u8>, chunk: &[u8])
    ensures
        final(delivered)@ == old(delivered)@ + chunk@,
{
    let n = chunk.len();
    let mut i: usize = 0;
    while i < n
        invariant
            0 <= i <= n,
            n == chunk@.len(),
            delivered@ == old(delivered)@ + chunk@.take(i as int),
        decreases n - i,
    {
        delivered.push(chunk[i]);
        assert(old(delivered)@ + chunk@.take(i + 1) =~= (old(delivered)@ + chunk@.take(
            i as int,
        )).push(chunk@[i as int]));
        i += 1;
    }
    assert(chunk@.take(n as int) =~= chunk@);
}

/// Relay a whole body, chunk by chunk in arrival order: what comes out is
/// exactly the concatenation of the chunks, whatever their sizes.
pub fn relay_stream(chunks: &Vec<Vec<u8>>) -> (out: Vec<u8>)
    ensures
        out@ == chunks.deep_view().flatten(),
{
    let n = chunks.len();
    let mut out: Vec<u8> = Vec::new();
    let mut i: usize = 0;
    while i < n
        invariant
            0 <= i <= n,
            n == chunks@.len(),
            chunks.deep_view().len() == n,
            out@ == chunks.deep_view().take(i as int).flatten_alt(),
        decreases n - i,
    {
        relay_chunk(&mut out, chunks[i].as_slice());
        proof {
            let pre = chunks.deep_view().take(i as int);
            let post = chunks.deep_view().take(i + 1);
            assert(post.drop_last() =~= pre);
            assert(post.last() == chunks.deep_view()[i as int]);
            assert(chunks.deep_view()[i as int] == chunks@[i as int]@);
        }
        i += 1;
    }
    proof {
        assert(chunks.deep_view().take(n as int) =~= chunks.deep_view());
        chunks.deep_view().lemma_flatten_and_flatten_alt_are_equivalent();
    }
    out
}

} // verus!

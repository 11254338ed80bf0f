//! The proxy's error taxonomy and its uniform rendering.
//!
//! Every failure of the forwarding pipeline or of the WebSocket bridge is
//! one of these kinds, and every kind renders the same way: the designated
//! status, a plain-text content type, and a body listing one cause per
//! line, outermost message first. Client-caused kinds (`MissingHost`,
//! `UnknownHost`) currently share the status of transport failures; the
//! kinds stay distinct so a corrected mapping can be layered on later.

use vstd::prelude::*;
use vstd::string::*;

verus! {

/// Everything that can go wrong while proxying one request. The transport
/// kinds carry the further cause lines reported by the failing leg,
/// outermost first.
#[derive(Debug, PartialEq, Eq)]
pub enum ProxyError {
    MissingHost,
    UnknownHost(String),
    UriConstructionError(String),
    SendRequestError(Vec<String>),
    PayloadError(Vec<String>),
    WebsocketUpstreamHandshake(Vec<String>),
    WebsocketClientHandshake(Vec<String>),
}

/// The outermost message of each kind.
pub open spec fn message_of(e: ProxyError) -> Seq<char> {
    match e {
        ProxyError::MissingHost => "request missing host header"@,
        ProxyError::UnknownHost(h) => "got request for unknown host: "@ + h@,
        ProxyError::UriConstructionError(_) => "failed to construct proxy URI"@,
        ProxyError::SendRequestError(_) => "failed to send HTTP request to upstream"@,
        ProxyError::PayloadError(_) => "failed to write HTTP response body"@,
        ProxyError::WebsocketUpstreamHandshake(_) => "failed to open WebSocket connection to upstream"@,
        ProxyError::WebsocketClientHandshake(_) => "failed to complete WebSocket handshake with client"@,
    }
}

/// The cause lines that follow the outermost message.
pub open spec fn detail_of(e: ProxyError) -> Seq<Seq<char>> {
    match e {
        ProxyError::MissingHost => Seq::empty(),
        ProxyError::UnknownHost(_) => Seq::empty(),
        ProxyError::UriConstructionError(d) => seq![d@],
        ProxyError::SendRequestError(d) => d.deep_view(),
        ProxyError::PayloadError(d) => d.deep_view(),
        ProxyError::WebsocketUpstreamHandshake(d) => d.deep_view(),
        ProxyError::WebsocketClientHandshake(d) => d.deep_view(),
    }
}

/// The full cause chain: outermost message first, then the details.
pub open spec fn chain_of(e: ProxyError) -> Seq<Seq<char>> {
    seq![message_of(e)] + detail_of(e)
}

/// Lines joined into one body, each line ending in a newline.
pub open spec fn rendered(lines: Seq<Seq<char>>) -> Seq<char>
    decreases lines.len(),
{
    if lines.len() == 0 {
        Seq::empty()
    } else {
        rendered(lines.drop_last()) + lines.last() + "\n"@
    }
}

pub proof fn lemma_rendered_push(lines: Seq<Seq<char>>, line: Seq<char>)
    ensures
        rendered(lines.push(line)) == rendered(lines) + line + "\n"@,
{
    assert(lines.push(line).drop_last() =~= lines);
    assert(lines.push(line).last() == line);
}

impl ProxyError {
    /// The designated HTTP status: every kind currently renders as an
    /// internal server error, as the taxonomy note above explains.
    pub fn status_code(&self) -> (s: u16)
        ensures
            s == 500,
    {
        500
    }

    /// The outermost message of this error.
    pub fn message(&self) -> (m: String)
        ensures
            m@ == message_of(*self),
    {
        match self {
            ProxyError::MissingHost => String::from_str("request missing host header"),
            ProxyError::UnknownHost(h) => {
                let mut m = String::from_str("got request for unknown host: ");
                m.append(h.as_str());
                m
            },
            ProxyError::UriConstructionError(_) => String::from_str("failed to construct proxy URI"),
            ProxyError::SendRequestError(_) => String::from_str("failed to send HTTP request to upstream"),
            ProxyError::PayloadError(_) => String::from_str("failed to write HTTP response body"),
            ProxyError::WebsocketUpstreamHandshake(_) => String::from_str(
                "failed to open WebSocket connection to upstream",
            ),
            ProxyError::WebsocketClientHandshake(_) => String::from_str(
                "failed to complete WebSocket handshake with client",
            ),
        }
    }

    /// The full cause chain of this error, one line per cause, outermost
    /// first.
    pub fn cause_lines(&self) -> (r: Vec<String>)
        ensures
            r.deep_view() == chain_of(*self),
    {
        let mut out: Vec<String> = Vec::new();
        out.push(self.message());
        let detail: &Vec<String> = match self {
            ProxyError::MissingHost => {
                assert(out.deep_view() =~= chain_of(*self));
                return out;
            },
            ProxyError::UnknownHost(_) => {
                assert(out.deep_view() =~= chain_of(*self));
                return out;
            },
            ProxyError::UriConstructionError(d) => {
                out.push(d.clone());
                assert(out.deep_view() =~= chain_of(*self));
                return out;
            },
            ProxyError::SendRequestError(d) => d,
            ProxyError::PayloadError(d) => d,
            ProxyError::WebsocketUpstreamHandshake(d) => d,
            ProxyError::WebsocketClientHandshake(d) => d,
        };
        let n = detail.len();
        let mut i: usize = 0;
        while i < n
            invariant
                0 <= i <= n,
                n == detail@.len(),
                out@.len() == 1 + i,
                out@[0]@ == message_of(*self),
                forall|j: int| 1 <= j <= i ==> #[trigger] out@[j]@ == detail@[j - 1]@,
            decreases n - i,
        {
            out.push(detail[i].clone());
            i += 1;
        }
        assert forall|j: int| 0 <= j < out.deep_view().len() implies
            out.deep_view()[j] == chain_of(*self)[j] by {
            if j >= 1 {
                assert(out@[j]@ == detail@[j - 1]@);
            }
        }
        assert(out.deep_view() =~= chain_of(*self));
        out
    }

    /// The rendered plain-text body: the cause chain, one line per cause,
    /// outermost first, each line ending in a newline.
    pub fn render_body(&self) -> (b: String)
        ensures
            b@ == rendered(chain_of(*self)),
    {
        let lines = self.cause_lines();
        let n = lines.len();
        let mut body = String::new();
        let mut i: usize = 0;
        while i < n
            invariant
                0 <= i <= n,
                n == lines@.len(),
                lines.deep_view() == chain_of(*self),
                body@ == rendered(lines.deep_view().take(i as int)),
            decreases n - i,
        {
            body.append(lines[i].as_str());
            body.append("\n");
            proof {
                lemma_rendered_push(lines.deep_view().take(i as int), lines.deep_view()[i as int]);
                assert(lines.deep_view().take(i + 1) =~= lines.deep_view().take(i as int).push(
                    lines.deep_view()[i as int],
                ));
            }
            i += 1;
        }
        assert(lines.deep_view().take(n as int) =~= lines.deep_view());
        body
    }
}

/// The uniform content type of a rendered failure.
pub fn error_content_type() -> (s: String)
    ensures
        s@ == "text/plain; charset=utf-8"@,
{
    String::from_str("text/plain; charset=utf-8")
}

} // verus!

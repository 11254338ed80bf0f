//! Header handling: ordered, case-insensitive headers with duplicates
//! preserved; hop-by-hop hygiene; the forwarding headers the proxy adds.

use vstd::prelude::*;
use vstd::string::*;
use crate::text::{lower, eq_nocase};

verus! {

/// One header entry. A request or response carries an ordered list of
/// these; names compare case-insensitively and duplicates are preserved.
#[derive(Debug)]
pub struct Header {
    pub name: String,
    pub value: String,
}

impl View for Header {
    type V = (Seq<char>, Seq<char>);

    open spec fn view(&self) -> (Seq<char>, Seq<char>) {
        (self.name@, self.value@)
    }
}

impl DeepView for Header {
    type V = (Seq<char>, Seq<char>);

    open spec fn deep_view(&self) -> (Seq<char>, Seq<char>) {
        self@
    }
}

impl Header {
    pub fn new(name: &str, value: &str) -> (h: Header)
        ensures
            h@ == (name@, value@),
    {
        Header { name: name.to_owned(), value: value.to_owned() }
    }

    pub fn duplicate(&self) -> (h: Header)
        ensures
            h@ == self@,
    {
        Header { name: self.name.clone(), value: self.value.clone() }
    }
}

/// Whether a header entry is the hop-by-hop `Connection` header.
pub open spec fn is_connection(h: (Seq<char>, Seq<char>)) -> bool {
    lower(h.0) == "connection"@
}

/// The same headers with every `Connection` entry removed: order and
/// duplicates of everything else are preserved.
pub open spec fn strip_connection(hs: Seq<(Seq<char>, Seq<char>)>) -> Seq<(Seq<char>, Seq<char>)> {
    hs.filter(|h: (Seq<char>, Seq<char>)| !is_connection(h))
}

/// No `Connection` entry survives the strip, whatever its case.
pub proof fn lemma_strip_connection_clean(hs: Seq<(Seq<char>, Seq<char>)>)
    ensures
        forall|i: int| 0 <= i < strip_connection(hs).len()
            ==> !is_connection(#[trigger] strip_connection(hs)[i]),
{
    assert forall|i: int| 0 <= i < strip_connection(hs).len() implies
        !is_connection(#[trigger] strip_connection(hs)[i]) by {
        hs.lemma_filter_pred(|h: (Seq<char>, Seq<char>)| !is_connection(h), i);
    }
}

/// Copy the headers with every `Connection` entry dropped; everything else
/// keeps its order, its case and its duplicates.
pub fn forward_headers(hs: &Vec<Header>) -> (r: Vec<Header>)
    ensures
        r.deep_view() == strip_connection(hs.deep_view()),
{
    let pred = Ghost(|h: (Seq<char>, Seq<char>)| !is_connection(h));
    let n = hs.len();
    let mut out: Vec<Header> = Vec::new();
    let mut i: usize = 0;
    assert(hs.deep_view().take(0).filter(pred@) =~= out.deep_view());
    while i < n
        invariant
            0 <= i <= n,
            n == hs@.len(),
            hs.deep_view().len() == n,
            pred@ == (|h: (Seq<char>, Seq<char>)| !is_connection(h)),
            out.deep_view() == hs.deep_view().take(i as int).filter(pred@),
        decreases n - i,
    {
        let keep = !eq_nocase(hs[i].name.as_str(), "connection");
        proof {
            crate::text::lemma_lower_connection();
            assert(hs.deep_view()[i as int] == hs[i as int].deep_view());
            assert(hs.deep_view().take(i + 1).drop_last() =~= hs.deep_view().take(i as int));
            assert(hs.deep_view().take(i + 1).last() == hs.deep_view()[i as int]);
            reveal(Seq::filter);
        }
        if keep {
            out.push(hs[i].duplicate());
        }
        assert(out.deep_view() =~= hs.deep_view().take(i + 1).filter(pred@));
        i += 1;
    }
    assert(hs.deep_view().take(n as int) =~= hs.deep_view());
    out
}

/// The value of the first header with the given name, compared
/// case-insensitively, if any.
pub open spec fn first_value(hs: Seq<(Seq<char>, Seq<char>)>, name: Seq<char>) -> Option<Seq<char>>
    decreases hs.len(),
{
    if hs.len() == 0 {
        None
    } else if lower(hs[0].0) == name {
        Some(hs[0].1)
    } else {
        first_value(hs.skip(1), name)
    }
}

/// The value of the first `Host` header, if any.
pub open spec fn first_host(hs: Seq<(Seq<char>, Seq<char>)>) -> Option<Seq<char>> {
    first_value(hs, "host"@)
}

/// Find the first header whose name equals `name` case-insensitively, and
/// hand its value out.
pub fn find_header(hs: &Vec<Header>, name: &str) -> (r: Option<String>)
    ensures
        match r {
            Some(h) => first_value(hs.deep_view(), lower(name@)) == Some(h@),
            None => first_value(hs.deep_view(), lower(name@)) is None,
        },
{
    let n = hs.len();
    let mut i: usize = 0;
    assert(hs.deep_view().skip(0) =~= hs.deep_view());
    while i < n
        invariant
            0 <= i <= n,
            n == hs@.len(),
            hs.deep_view().len() == n,
            first_value(hs.deep_view(), lower(name@)) == first_value(
                hs.deep_view().skip(i as int),
                lower(name@),
            ),
        decreases n - i,
    {
        proof {
            assert(hs.deep_view().skip(i as int)[0] == hs.deep_view()[i as int]);
            assert(hs.deep_view()[i as int] == hs[i as int].deep_view());
            assert(hs.deep_view().skip(i as int).skip(1) =~= hs.deep_view().skip(i + 1));
        }
        if eq_nocase(hs[i].name.as_str(), name) {
            return Some(hs[i].value.clone());
        }
        i += 1;
    }
    assert(hs.deep_view().skip(n as int) =~= Seq::<(Seq<char>, Seq<char>)>::empty());
    None
}

/// Extract the value of the first `Host` header of a request, if any.
pub fn host_of(hs: &Vec<Header>) -> (r: Option<String>)
    ensures
        match r {
            Some(h) => first_host(hs.deep_view()) == Some(h@),
            None => first_host(hs.deep_view()) is None,
        },
{
    proof {
        crate::text::lemma_lower_host();
    }
    find_header(hs, "host")
}

/// Append one `X-Forwarded-For` entry carrying the peer's IP, after every
/// existing header, existing `X-Forwarded-For` entries included.
pub fn append_forwarded_for(hs: &mut Vec<Header>, peer_ip: &str)
    ensures
        final(hs).deep_view() == old(hs).deep_view().push(("x-forwarded-for"@, peer_ip@)),
{
    hs.push(Header::new("x-forwarded-for", peer_ip));
    assert(final(hs).deep_view() =~= old(hs).deep_view().push(("x-forwarded-for"@, peer_ip@)));
}

} // verus!

//! The server frontend's dispatch decision: each accepted request is
//! classified as a plain request or as a protocol upgrade, and handed to
//! the forwarding pipeline or to the WebSocket bridge accordingly.

use vstd::prelude::*;
use vstd::string::*;
use crate::headers::{Header, first_value, find_header};
use crate::text::{lower, lower_char, eq_nocase, lemma_lower_connection, lemma_lower_upgrade,
    lemma_lower_websocket};
use crate::tokens::{has_token, is_blank, value_has_token};

verus! {

/// The two-variant dispatch: a request either flows through the HTTP
/// forwarding pipeline or upgrades into a WebSocket bridge session.
#[derive(Debug, PartialEq, Eq, Clone, Copy)]
pub enum RequestClass {
    Plain,
    Upgrade,
}

/// A request asks for an upgrade when its first `Upgrade` header names the
/// WebSocket protocol and its first `Connection` header carries the
/// `upgrade` token, both case-insensitively.
pub open spec fn is_upgrade(hs: Seq<(Seq<char>, Seq<char>)>) -> bool {
    &&& match first_value(hs, "upgrade"@) {
        Some(v) => lower(v) == "websocket"@,
        None => false,
    }
    &&& match first_value(hs, "connection"@) {
        Some(v) => has_token(v, "upgrade"@),
        None => false,
    }
}

/// Classify one request by its upgrade-related headers.
pub fn classify(headers: &Vec<Header>) -> (c: RequestClass)
    ensures
        c is Upgrade <==> is_upgrade(headers.deep_view()),
        c is Plain <==> !is_upgrade(headers.deep_view()),
{
    proof {
        lemma_lower_upgrade();
        lemma_lower_connection();
    }
    let upgrade_names_websocket = match find_header(headers, "upgrade") {
        Some(v) => {
            proof {
                lemma_lower_websocket();
            }
            eq_nocase(v.as_str(), "websocket")
        },
        None => false,
    };
    if !upgrade_names_websocket {
        return RequestClass::Plain;
    }
    match find_header(headers, "connection") {
        Some(v) => {
            proof {
                reveal_strlit("upgrade");
                assert forall|k: int| 0 <= k < "upgrade"@.len() implies !is_blank(
                    #[trigger] "upgrade"@[k],
                ) && "upgrade"@[k] != ',' && lower_char("upgrade"@[k]) == "upgrade"@[k] by {}
            }
            if value_has_token(v.as_str(), "upgrade") {
                RequestClass::Upgrade
            } else {
                RequestClass::Plain
            }
        },
        None => RequestClass::Plain,
    }
}

} // verus!

//! The one outside call inside the forwarding logic: parsing the
//! constructed target as a URI.

use vstd::prelude::*;

verus! {

#[verifier::external_type_specification]
#[verifier::external_body]
pub struct ExUri(actix_web::http::Uri);

/// Whether the http crate's URI grammar accepts a string.
pub uninterp spec fn uri_valid(s: Seq<char>) -> bool;

/// Relies on `actix_web::http::Uri::try_from` (the http crate's URI
/// parser): acceptance is a function of the characters alone, the call
/// never panics, and a rejection carries the parser's message.
#[verifier::external_body]
pub(crate) fn parse_uri(s: &str) -> (r: Result<actix_web::http::Uri, String>)
    ensures
        r is Ok <==> uri_valid(s@),
{
    match actix_web::http::Uri::try_from(s) {
        Ok(u) => Ok(u),
        Err(e) => Err(format!("{}", e)),
    }
}

} // verus!

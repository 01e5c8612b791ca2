//! The choice of a TLS implementation for outgoing requests, and the reading
//! of URLs that may come without a scheme.

use crate::foreign::{parse_absolute_url, url_parsed};
use crate::text::{chars_of, concat, starts_with};
use vstd::prelude::*;

verus! {

/// The TLS implementation that a client uses.
#[derive(Debug, Clone, Copy, PartialEq, Eq, Structural)]
pub enum ClientTls {
    /// No TLS: requests to `https` URLs fail.
    NoTls,
    Rustls,
    Native,
}

impl Default for ClientTls {
    fn default() -> (r: ClientTls)
        ensures
            r == ClientTls::Rustls,
    {
        ClientTls::Rustls
    }
}

/// What is parsed for `source`: the text itself where it begins with `http`,
/// and else the text behind `http://`.
pub open spec fn with_scheme_spec(source: Seq<char>) -> Seq<char> {
    if "http"@.is_prefix_of(source) {
        source
    } else {
        "http://"@ + source
    }
}

/// `source`, with the scheme `http` put before it where it names none.
pub fn with_scheme(source: &str) -> (r: String)
    ensures
        r@ == with_scheme_spec(source@),
{
    let chars = chars_of(source);
    let prefix = chars_of("http");
    if starts_with(&chars, &prefix) {
        source.to_owned()
    } else {
        concat("http://", source)
    }
}

/// Reads a URL that may lack its scheme. Returns the URL in its normal form,
/// or the message of the parse error.
pub fn parse_url(source: &str) -> (r: Result<String, String>)
    ensures
        match r {
            Ok(url) => url_parsed(with_scheme_spec(source@)) == Ok::<Seq<char>, Seq<char>>(url@),
            Err(message) => url_parsed(with_scheme_spec(source@)) == Err::<Seq<char>, Seq<char>>(
                message@,
            ),
        },
{
    let text = with_scheme(source);
    parse_absolute_url(text.as_str())
}

} // verus!

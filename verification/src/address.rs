//! Target addresses: scheme defaulting and parsing into an absolute URL.

use crate::text::has_prefix;
use vstd::prelude::*;

verus! {

/// `url::ParseError`, the error with which the URL parser rejects a text.
/// Nothing is known of a value of it.
#[verifier::external_type_specification]
#[verifier::external_body]
pub struct ExParseError(url::ParseError);

/// The serialization of the absolute URL that `reqwest::Url` parses `text`
/// into, or `None` where it rejects `text`.
pub uninterp spec fn parsed_url(text: Seq<char>) -> Option<Seq<char>>;

/// `address` itself where it already starts with `http://` or `https://`,
/// else `address` behind `https://`.
pub open spec fn with_default_scheme(address: Seq<char>) -> Seq<char> {
    if "http://"@.is_prefix_of(address) || "https://"@.is_prefix_of(address) {
        address
    } else {
        "https://"@ + address
    }
}

/// An address that starts with `http://` or `https://` stays as it is, and
/// any other address gets `https://` in front. Either way the result starts
/// with one of the two, so that defaulting the scheme again changes nothing.
pub proof fn lemma_scheme_defaults_to_https(address: Seq<char>)
    ensures
        "http://"@.is_prefix_of(address) || "https://"@.is_prefix_of(address)
            ==> with_default_scheme(address) == address,
        !"http://"@.is_prefix_of(address) && !"https://"@.is_prefix_of(address)
            ==> with_default_scheme(address) == "https://"@ + address,
        "http://"@.is_prefix_of(with_default_scheme(address)) || "https://"@.is_prefix_of(
            with_default_scheme(address),
        ),
        with_default_scheme(with_default_scheme(address)) == with_default_scheme(address),
{
    assert(("https://"@ + address).subrange(0, "https://"@.len() as int) =~= "https://"@);
}

/// Gives `url` the scheme `https` unless it already names `http` or `https`.
pub fn add_http_if_missing(url: &str) -> (full: String)
    ensures
        full@ == with_default_scheme(url@),
{
    if has_prefix(url, "http://") || has_prefix(url, "https://") {
        url.to_owned()
    } else {
        String::from_str("https://").concat(url)
    }
}

/// Calls `<reqwest::Url as FromStr>::from_str`, which parses `text` as an
/// absolute URL. On success the result is the URL's serialization, which
/// the contract names `parsed_url(text)`; on failure it is the parser's own
/// error, of which nothing is claimed.
#[verifier::external_body]
pub(crate) fn parse_url(text: &str) -> (parsed: Result<String, url::ParseError>)
    ensures
        match parsed {
            Ok(url) => parsed_url(text@) == Some(url@),
            Err(_) => parsed_url(text@) is None,
        },
{
    match <reqwest::Url as std::str::FromStr>::from_str(text) {
        Ok(url) => Ok(String::from(url)),
        Err(why) => Err(why),
    }
}

} // verus!

//! What the HTTP library makes of the texts that a request is built from.
//! The two functions here are not verified: their contracts give names to
//! what the library's parsers answer, and the rest of the crate reasons
//! about those names only.

use vstd::prelude::*;

verus! {

/// What the HTTP library's URI parser makes of a text: `None` where it turns
/// the text down, else whether the URI it read is in absolute form, that is,
/// begins with a scheme.
pub uninterp spec fn uri_form(text: Seq<char>) -> Option<bool>;

/// Whether the HTTP library reads a text as a media type with an optional
/// quality, such as `text/html` or `text/html; q=0.8`.
pub uninterp spec fn accept_item_parses(text: Seq<char>) -> bool;

/// Trusted: parses the text with `hyper::Uri`'s `FromStr` and asks the
/// result `Uri::is_absolute`. The contract claims that the answer depends on
/// the text alone, and calls it `uri_form`. The parser returns for every
/// text.
#[verifier::external_body]
pub(crate) fn inspect_uri(text: &str) -> (form: Option<bool>)
    ensures
        form == uri_form(text@),
{
    match text.parse::<hyper::Uri>() {
        Ok(uri) => Some(uri.is_absolute()),
        Err(_) => None,
    }
}

/// Trusted: parses the text with the `FromStr` of
/// `hyper::header::QualityItem<Mime>`. The contract claims that whether the
/// parser accepts depends on the text alone, and calls it
/// `accept_item_parses`. The parser returns for every text.
#[verifier::external_body]
pub(crate) fn inspect_accept_item(text: &str) -> (accepted: bool)
    ensures
        accepted == accept_item_parses(text@),
{
    text.parse::<hyper::header::QualityItem<hyper::mime::Mime>>().is_ok()
}

} // verus!

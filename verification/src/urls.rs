//! URL values for release assets, carried opaquely through the library.

use vstd::prelude::*;

use url::Url;

verus! {

#[verifier::external_type_specification]
#[verifier::external_body]
pub struct ExUrl(Url);

#[verifier::external_type_specification]
#[verifier::external_body]
pub struct ExParseError(url::ParseError);

/// Whether URL parsing accepts this text: a function of the text alone.
pub uninterp spec fn url_parse_ok(s: Seq<char>) -> bool;

/// The URL value this text parses to: `Url::parse` is a pure function of
/// the text, so the value is determined by it (meaningful when
/// [`url_parse_ok`] holds).
pub uninterp spec fn parsed_url_of(s: Seq<char>) -> Url;

/// Relies on `Url::parse`: parsing succeeds or fails by the URL grammar,
/// on the text alone, and the parsed value depends on the text alone.
#[verifier::external_body]
pub fn parse_url(s: &str) -> (r: Result<Url, url::ParseError>)
    ensures
        r is Ok <==> url_parse_ok(s@),
        r matches Ok(u) ==> u == parsed_url_of(s@),
{
    Url::parse(s)
}

} // verus!

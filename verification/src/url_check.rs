use vstd::prelude::*;
use crate::error::HttpError;

verus! {

/// The outside URL parser's error type, carried only to extract its
/// description.
#[verifier::external_type_specification]
#[verifier::external_body]
pub struct ExParseError(url::ParseError);

/// What `url::Url::parse` yields for a given string: `Some` with the
/// canonical serialization of the parsed absolute URL, `None` when the
/// string does not parse as one. The result depends on the string alone.
pub uninterp spec fn url_canon(s: Seq<char>) -> Option<Seq<char>>;

/// Relies on `url::Url::parse`: parses an absolute URL (scheme and, where
/// the scheme requires one, host) and serializes it back to its canonical
/// string; returns the parser's error when the string is not an absolute
/// URL.
#[verifier::external_body]
fn url_parse(s: &str) -> (r: Result<String, url::ParseError>)
    ensures
        r matches Ok(t) ==> url_canon(s@) == Some(t@),
        r is Err <==> url_canon(s@) is None,
{
    match url::Url::parse(s) {
        Ok(u) => Ok(String::from(u)),
        Err(e) => Err(e),
    }
}

/// Relies on the `Display` impl of `url::ParseError` for the parser's
/// description of the failure.
#[verifier::external_body]
fn url_parse_error_text(e: &url::ParseError) -> String {
    format!("{}", e)
}

/// Validates a URL argument: accepts exactly the strings that parse as
/// absolute URLs, returning the canonical string form; rejects every
/// other string with `InvalidUrl` carrying the original input and the
/// parser's reason, before any network activity.
pub fn parse_url(url: &str) -> (r: Result<String, HttpError>)
    ensures
        r matches Ok(t) ==> url_canon(url@) == Some(t@),
        r is Err <==> url_canon(url@) is None,
        r matches Err(e) ==> (e matches HttpError::InvalidUrl { input, reason: _ }
            && input@ == url@),
{
    match url_parse(url) {
        Ok(t) => Ok(t),
        Err(e) => {
            let reason = url_parse_error_text(&e);
            Err(HttpError::InvalidUrl { input: url.to_owned(), reason })
        },
    }
}

} // verus!

//! Parsing of absolute URLs, done by the `url` crate.
use vstd::prelude::*;

verus! {

/// What `url::Url::parse` makes of `input`: on success the serialization
/// of the parsed URL (`Url::as_str`), on failure the text that the
/// `url::ParseError` displays.
pub uninterp spec fn url_parse_outcome(input: Seq<char>) -> Result<Seq<char>, Seq<char>>;

/// Calls `url::Url::parse`. The contract claims only that the outcome is
/// the one named by `url_parse_outcome` for this input: the serialization
/// of the URL when parsing succeeds, the error's display text when it
/// fails. Which strings parse, and how they are normalized, is left to the
/// `url` crate.
#[verifier::external_body]
pub(crate) fn parse_url(input: &str) -> (r: Result<String, String>)
    ensures
        match r {
            Ok(s) => url_parse_outcome(input@) == Ok::<Seq<char>, Seq<char>>(s@),
            Err(e) => url_parse_outcome(input@) == Err::<Seq<char>, Seq<char>>(e@),
        },
{
    match url::Url::parse(input) {
        Ok(u) => Ok(String::from(u)),
        Err(e) => Err(e.to_string()),
    }
}

} // verus!

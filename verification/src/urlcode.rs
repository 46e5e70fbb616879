//! Decoding of URL-encoded form text, done by Rocket's `RawStr`.
use rocket::http::RawStr;
use vstd::prelude::*;

verus! {

/// What Rocket's `RawStr::url_decode` gives for a raw form text: `+` read as a
/// space, `%XY` escapes read as bytes, and the result read as UTF-8
/// (`None` where those bytes are not valid UTF-8).
pub uninterp spec fn url_decoded(raw: Seq<char>) -> Option<Seq<char>>;

/// What Rocket's `RawStr::percent_decode` gives for a raw text: `%XY` escapes
/// read as bytes and the result read as UTF-8 (`None` where those bytes are
/// not valid UTF-8); `+` is kept as it is.
pub uninterp spec fn percent_decoded(raw: Seq<char>) -> Option<Seq<char>>;

/// Calls `rocket::http::RawStr::url_decode`. Trusted: its result is
/// `url_decoded` of the raw text, the decoded text where it is valid UTF-8.
#[verifier::external_body]
pub(crate) fn url_decode(raw: &str) -> (r: Option<String>)
    ensures
        r.deep_view() == url_decoded(raw@),
{
    RawStr::new(raw).url_decode().ok().map(|text| text.into_owned())
}

/// Calls `rocket::http::RawStr::percent_decode`. Trusted: its result is
/// `percent_decoded` of the raw text, the decoded text where it is valid UTF-8.
#[verifier::external_body]
pub(crate) fn percent_decode(raw: &str) -> (r: Option<String>)
    ensures
        r.deep_view() == percent_decoded(raw@),
{
    RawStr::new(raw).percent_decode().ok().map(|text| text.into_owned())
}

} // verus!

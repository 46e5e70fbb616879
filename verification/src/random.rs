//! Random characters, drawn by `rand`.
use rand::distributions::Alphanumeric;
use rand::Rng;
use vstd::prelude::*;

verus! {

/// An ASCII letter or digit.
pub open spec fn is_alphanumeric(c: char) -> bool {
    ('0' <= c && c <= '9') || ('A' <= c && c <= 'Z') || ('a' <= c && c <= 'z')
}

/// Draws one character from `rand::distributions::Alphanumeric` with the
/// thread's generator. Trusted: the distribution picks from `A-Z`, `a-z` and
/// `0-9` only; which one comes back is chance.
#[verifier::external_body]
pub(crate) fn random_alphanumeric() -> (c: char)
    ensures
        is_alphanumeric(c),
{
    rand::thread_rng().sample(Alphanumeric) as char
}

} // verus!

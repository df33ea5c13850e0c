use vstd::prelude::*;

verus! {

/// Relies on uuid::Uuid::new_v4 and the hyphenated display form of a UUID:
/// a freshly drawn random version-4 UUID, rendered as its 36-character
/// lower-case hyphenated text. The value is random, so nothing is assumed
/// beyond its length; callers that need freshness against a set of known
/// tokens test for membership themselves.
#[verifier::external_body]
pub(crate) fn fresh_token() -> (r: String)
    ensures
        r@.len() == 36,
{
    uuid::Uuid::new_v4().to_string()
}

} // verus!

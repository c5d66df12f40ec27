//! Timestamp rendering, delegated to the database driver's timestamp
//! type so that the lookup path serialises timestamps exactly as the
//! stored documents do.

use vstd::prelude::*;

verus! {

/// The RFC 3339 rendering of a millisecond timestamp, or `None` when
/// the timestamp falls outside the representable calendar range.
pub uninterp spec fn rfc3339_of(ms: i64) -> Option<Seq<char>>;

/// Relies on `mongodb::bson::DateTime::try_to_rfc3339_string`: the
/// rendering depends on the milliseconds alone, and fails exactly for
/// timestamps that the RFC 3339 calendar cannot represent.
#[verifier::external_body]
pub fn rfc3339_string(ms: i64) -> (r: Option<String>)
    ensures
        (r is Some) == (rfc3339_of(ms) is Some),
        r matches Some(s) ==> rfc3339_of(ms) == Some(s@),
{
    mongodb::bson::DateTime::from_millis(ms).try_to_rfc3339_string().ok()
}

} // verus!

//! Calls whose results depend on the moment or on chance: the current time and
//! fresh identifiers.
use vstd::prelude::*;

verus! {

/// The current UTC time as RFC 3339 text (`chrono::Utc::now().to_rfc3339()`).
/// The value depends on the clock, so the contract claims nothing about it.
#[verifier::external_body]
pub(crate) fn now_rfc3339() -> String {
    chrono::Utc::now().to_rfc3339()
}

/// A fresh random identifier (`uuid::Uuid::new_v4().to_string()`). The value
/// is random; uuid's hyphenated form is always 36 characters long, which is
/// all the contract claims.
#[verifier::external_body]
pub(crate) fn new_uuid() -> (r: String)
    ensures
        r@.len() == 36,
{
    uuid::Uuid::new_v4().to_string()
}

} // verus!

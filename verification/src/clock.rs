//! Identifiers and timestamps for records: random version-4 UUIDs and the
//! wall clock.

use vstd::prelude::*;

verus! {

/// A fresh random identifier: `uuid::Uuid::new_v4()` in its hyphenated
/// text form, which is 36 characters long. Nothing else about the value is
/// stated: it is random.
#[verifier::external_body]
pub(crate) fn new_id() -> (r: String)
    ensures
        r@.len() == 36,
{
    uuid::Uuid::new_v4().to_string()
}

/// The current time as milliseconds since the Unix epoch:
/// `chrono::Utc::now().timestamp_millis()`. Nothing is stated of the value:
/// it is the time.
#[verifier::external_body]
pub(crate) fn now_millis() -> (r: i64) {
    chrono::Utc::now().timestamp_millis()
}

} // verus!

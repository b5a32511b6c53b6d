//! Wall-clock time and fresh identifiers.
//!
//! These are the only two places where the library reads something that is
//! not a function of its arguments. Every operation that needs a time or an
//! identifier also exists in a form that takes them as parameters.

use vstd::prelude::*;

verus! {

/// Number of characters in the hyphenated text form of an identifier.
pub const ID_LEN: usize = 36;

/// Current UTC time in milliseconds since the Unix epoch: the system time of
/// `std::time::SystemTime::now`, turned into a `chrono::DateTime<Utc>` by
/// chrono's `From<SystemTime>` and counted by `DateTime::timestamp_millis`.
///
/// Nothing is promised about the value: two calls may return anything, in
/// any order. A clock that reads a time before the epoch gives a negative
/// count. chrono holds any time within about 262,000 years of the epoch,
/// before it or after.
#[verifier::external_body]
pub(crate) fn now_millis() -> (now: i64) {
    chrono::DateTime::<chrono::Utc>::from(std::time::SystemTime::now()).timestamp_millis()
}

/// A new random identifier: `uuid::Uuid::new_v4`, written in its hyphenated
/// lower-case form by `to_string`.
///
/// The only claim is the length of the text, which is the same for every
/// identifier. Nothing is promised about which identifier comes back; in
/// particular not that it differs from earlier ones.
#[verifier::external_body]
pub(crate) fn fresh_id() -> (id: String)
    ensures
        id@.len() == ID_LEN,
{
    uuid::Uuid::new_v4().to_string()
}

} // verus!

//! Wrappers around the outside crates the engine relies on.

use vstd::prelude::*;

verus! {

/// Relies on uuid::Uuid::new_v4, displayed in its hyphenated form: a fresh
/// random identifier for a new table. The value is random, so nothing is
/// promised of it.
#[verifier::external_body]
pub(crate) fn fresh_table_id() -> String {
    uuid::Uuid::new_v4().to_string()
}

/// Relies on chrono::Utc::now and DateTime::timestamp_millis: the current
/// time as milliseconds since the Unix epoch. The value depends on the
/// clock, so nothing is promised of it.
#[verifier::external_body]
pub(crate) fn now_timestamp_millis() -> i64 {
    chrono::Utc::now().timestamp_millis()
}

} // verus!

use vstd::prelude::*;

verus! {

/// chrono's `Utc::now`, read as milliseconds since the Unix epoch
/// (`DateTime::timestamp_millis`). The value depends on the clock, so nothing is
/// stated of it; chrono panics only on a clock set before 1970.
#[verifier::external_body]
pub fn now_millis() -> i64 {
    chrono::Utc::now().timestamp_millis()
}

} // verus!

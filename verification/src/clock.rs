//! The wall clock.
use vstd::prelude::*;

verus! {

/// `chrono::Local::now().timestamp_millis()`: the current time in ms since
/// the Unix epoch. Nothing is promised of the value: it is the clock's.
#[verifier::external_body]
pub(crate) fn now_millis() -> i64 {
    chrono::Local::now().timestamp_millis()
}

} // verus!

//! The system clock, read through `chrono`.

use vstd::prelude::*;

verus! {

/// `chrono::Local::now`, handed on as the Unix time in seconds and as the
/// local time of day in the form `HH:MM:SS`. Nothing is claimed of either:
/// they are whatever the system clock and the local time zone give.
#[verifier::external_body]
pub(crate) fn read_clock() -> (reading: (i64, String)) {
    let now = chrono::Local::now();
    (now.timestamp(), now.format("%T").to_string())
}

} // verus!

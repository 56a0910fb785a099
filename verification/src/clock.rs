//! The wall clock. Every timed contract in the library takes an instant as a
//! plain value; this is the one place a fresh instant is read.

use vstd::prelude::*;

verus! {

/// Relies on `chrono::Utc::now`: the wall clock as unix milliseconds. The
/// result depends on when the call runs, so nothing is promised of it. The
/// underlying read aborts on a system clock outside the range the library
/// there accepts (before the epoch or absurdly far ahead); that depends on
/// the environment alone, never on an input.
#[verifier::external_body]
pub(crate) fn now_unix_millis() -> i64 {
    chrono::Utc::now().timestamp_millis()
}

} // verus!

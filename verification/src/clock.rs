//! The one place the library reads the wall clock.

use chrono::Datelike;
use chrono::Timelike;
use vstd::prelude::*;

verus! {

/// Relies on chrono's `Local::now` and its `Datelike`/`Timelike` accessors:
/// `month` is 1 to 12, `day` is 1 to 31, `hour` is at most 23, `minute` and
/// `second` at most 59. The year is whatever the clock says, so no bound is
/// stated for it.
#[verifier::external_body]
pub(crate) fn now_parts() -> (r: (i32, u32, u32, u32, u32, u32))
    ensures
        1 <= r.1 <= 12,
        1 <= r.2 <= 31,
        r.3 <= 23,
        r.4 <= 59,
        r.5 <= 59,
{
    let now = chrono::Local::now();
    (now.year(), now.month(), now.day(), now.hour(), now.minute(), now.second())
}

} // verus!

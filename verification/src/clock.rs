//! The one builtin that consults the machine's clock.
use vstd::prelude::*;

use crate::outcome::STATUS_OK;

verus! {

/// Relies on chrono's `Local::now` and `format` with `%Y-%m-%d %H:%M:%S`:
/// the current local time rendered as `YYYY-MM-DD HH:MM:SS`. The value
/// depends on the clock, so nothing is promised of it beyond the format's
/// minimum length: four or more year digits, five two-digit fields, five
/// separators.
#[verifier::external_body]
fn local_time_string() -> (r: String)
    ensures
        r@.len() >= 19,
{
    chrono::Local::now().format("%Y-%m-%d %H:%M:%S").to_string()
}

/// The current local date and time as a success result.
pub fn get_time() -> (r: (usize, String))
    ensures
        r.0 == STATUS_OK,
        r.1@.len() >= 19,
{
    (STATUS_OK, local_time_string())
}

} // verus!

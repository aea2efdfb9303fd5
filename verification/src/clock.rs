//! The current time, as the commands record it.

use vstd::prelude::*;

verus! {

/// Calls `chrono::Local::now()` and formats the result with chrono's
/// `Display` for `DateTime`: the local date and time, a space, then the
/// offset, so the text is never empty. Which date and time it shows depends
/// on the clock and the time zone of the machine, and is not stated. chrono
/// panics if the system clock reads a time before 1970 or the time zone
/// cannot be looked up.
#[verifier::external_body]
pub(crate) fn local_time_text() -> (r: String)
    ensures
        r@.len() > 0,
{
    chrono::Local::now().to_string()
}

} // verus!

use vstd::prelude::*;

verus! {

/// Relies on `std::time::SystemTime::now` and `duration_since(UNIX_EPOCH)`:
/// the current wall-clock instant, in milliseconds since the Unix epoch.
/// The machine's clock alone decides the value, so nothing is promised of
/// it.  The body is total: a clock reading before the epoch yields the
/// negated offset (`duration_since` returns it in the error), and an
/// instant too far out for the result type saturates.
#[verifier::external_body]
pub(crate) fn now_millis() -> i64 {
    match std::time::SystemTime::now().duration_since(std::time::UNIX_EPOCH) {
        Ok(d) => i64::try_from(d.as_millis()).unwrap_or(i64::MAX),
        Err(e) => i64::try_from(e.duration().as_millis()).map_or(i64::MIN, |m| -m),
    }
}

} // verus!

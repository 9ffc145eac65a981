//! Access to the system clock.
use vstd::prelude::*;

verus! {

/// `std::time::SystemTime`, declared so that timestamps can be stored in
/// spans and logs. Its values are opaque here; only equality matters to the
/// contracts.
#[verifier::external_type_specification]
#[verifier::external_body]
pub struct ExSystemTime(std::time::SystemTime);

/// Relies on `SystemTime`'s `Clone` being derived over a plain copy of its
/// fields: the clone equals the original.
pub assume_specification[ <std::time::SystemTime as Clone>::clone ](
    v: &std::time::SystemTime,
) -> (r: std::time::SystemTime)
    ensures
        r == *v,
;

/// Relies on `std::time::SystemTime::now`: the current system time. Nothing
/// is promised of the value, which depends on the clock.
#[verifier::external_body]
pub(crate) fn system_time_now() -> std::time::SystemTime {
    std::time::SystemTime::now()
}

} // verus!

use vstd::prelude::*;

verus! {

/// Relies on `chrono::Utc::now` and `DateTime::timestamp`: the current time as
/// whole seconds since the Unix epoch. Nothing is promised of its value.
#[verifier::external_body]
pub(crate) fn now_timestamp() -> (r: i64) {
    chrono::Utc::now().timestamp()
}

/// Relies on `chrono::Duration::days` and `TimeDelta::num_seconds`: a span of
/// `days` days is `days * 86400` seconds. `days` stays far inside the range on
/// which `Duration::days` would panic.
#[verifier::external_body]
pub(crate) fn seconds_in_days(days: i64) -> (r: i64)
    requires
        0 <= days <= 1_000_000,
    ensures
        r == days * 86400,
{
    chrono::Duration::days(days).num_seconds()
}

} // verus!

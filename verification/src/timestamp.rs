//! The time stamp given to a sensor reading that arrives over MQTT.

use vstd::prelude::*;

verus! {

/// The earliest instant that a UTC date-time can hold (January 1 of the
/// year 262144 BC, midnight), in milliseconds since the Unix epoch.
pub const EARLIEST_MILLIS: i64 = -8334601228800000;

/// The latest instant that a UTC date-time can hold (December 31, 262142,
/// 23:59:59.999), in milliseconds since the Unix epoch.
pub const LATEST_MILLIS: i64 = 8210266876799999;

/// Whether a millisecond time stamp denotes a representable instant.
pub open spec fn representable_millis(millis: i64) -> bool {
    EARLIEST_MILLIS <= millis <= LATEST_MILLIS
}

/// Calls `chrono::DateTime::from_timestamp_millis` and reports whether it
/// gave a date-time. Trusted: that function returns `None` exactly for
/// millisecond counts outside `DateTime::<Utc>::MIN_UTC..=MAX_UTC`, whose
/// bounds are the two constants above.
#[verifier::external_body]
fn chrono_accepts_millis(millis: i64) -> (accepted: bool)
    ensures
        accepted == representable_millis(millis),
{
    chrono::DateTime::from_timestamp_millis(millis).is_some()
}

/// The time stamp of a reading: the one the device sent when it denotes a
/// representable instant, else the time at which the reading was received.
pub fn reading_time_millis(sent_millis: i64, received_millis: i64) -> (t: i64)
    ensures
        t == if representable_millis(sent_millis) {
            sent_millis
        } else {
            received_millis
        },
{
    if chrono_accepts_millis(sent_millis) {
        sent_millis
    } else {
        received_millis
    }
}

} // verus!

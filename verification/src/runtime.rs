//! The two values that the library takes from its surroundings: the current
//! time and fresh random identifiers.
use vstd::prelude::*;

verus! {

/// Milliseconds since the Unix epoch, the form in which the library keeps time.
pub type Timestamp = i64;

/// Milliseconds in one day.
pub const MILLIS_PER_DAY: i64 = 86_400_000;

#[verifier::external_type_specification]
#[verifier::external_body]
pub struct ExSystemTime(std::time::SystemTime);

/// `std::time::SystemTime::now()`: the system clock's reading. It depends on
/// the clock, so nothing is claimed of it.
#[verifier::external_body]
fn clock_now() -> (t: std::time::SystemTime) {
    std::time::SystemTime::now()
}

/// `SystemTime::duration_since(UNIX_EPOCH)`: how long after the Unix epoch
/// `t` lies, or `None` for a reading before the epoch (the `Err` that std
/// documents for an earlier time). The duration is opaque here, so nothing
/// more is claimed.
#[verifier::external_body]
fn since_epoch(t: &std::time::SystemTime) -> (d: Option<std::time::Duration>) {
    match t.duration_since(std::time::UNIX_EPOCH) {
        Ok(elapsed) => Some(elapsed),
        Err(_) => None,
    }
}

/// `Duration::as_millis`: the whole milliseconds of `d`. The duration is
/// opaque here, so nothing is claimed of the number.
#[verifier::external_body]
fn whole_millis(d: &std::time::Duration) -> (ms: u128) {
    d.as_millis()
}

/// The current time. A clock that reads before the epoch gives the epoch, and
/// one beyond the last representable millisecond gives that millisecond.
pub fn current_time() -> (t: Timestamp)
    ensures
        t >= 0,
{
    let now = clock_now();
    match since_epoch(&now) {
        Some(elapsed) => {
            let ms = whole_millis(&elapsed);
            if ms > i64::MAX as u128 {
                i64::MAX
            } else {
                ms as i64
            }
        },
        None => 0,
    }
}

/// A fresh random identifier: `uuid::Uuid::new_v4()` written by its `Display`
/// impl, which is the 36-character hyphenated form. The value itself is random,
/// so only its length is claimed.
#[verifier::external_body]
pub fn new_id() -> (id: String)
    ensures
        id@.len() == 36,
{
    uuid::Uuid::new_v4().to_string()
}

} // verus!

//! The clock that stamps messages.

use vstd::prelude::*;

verus! {

#[verifier::external_type_specification]
#[verifier::external_body]
pub struct ExSystemTime(std::time::SystemTime);

/// Calls `std::time::SystemTime::now`. Nothing is claimed of the time that it reads.
#[verifier::external_body]
fn system_time() -> std::time::SystemTime {
    std::time::SystemTime::now()
}

/// Calls `std::time::SystemTime::duration_since` with the Unix epoch; gives nothing for a time
/// before the epoch. Both the time and the duration are opaque, so nothing is claimed of them.
#[verifier::external_body]
fn since_epoch(time: std::time::SystemTime) -> Option<std::time::Duration> {
    time.duration_since(std::time::UNIX_EPOCH).ok()
}

/// Calls `std::time::Duration::as_millis`. The duration is opaque, so nothing is claimed of the
/// number.
#[verifier::external_body]
fn whole_millis(elapsed: std::time::Duration) -> u128 {
    elapsed.as_millis()
}

/// The duration that `std::time::Duration::from_millis` makes of a number of milliseconds.
pub uninterp spec fn duration_of_millis(millis: u64) -> std::time::Duration;

/// Calls `std::time::Duration::from_millis`: the duration of that many milliseconds, the same for
/// the same number. The duration is opaque, so nothing is claimed of it beyond its name.
#[verifier::external_body]
pub(crate) fn duration_from_millis(millis: u64) -> (res: std::time::Duration)
    ensures
        res == duration_of_millis(millis),
{
    std::time::Duration::from_millis(millis)
}

/// The stamp for a clock that shows `elapsed` milliseconds since the epoch, or a time before it.
pub fn stamp(elapsed: Option<u128>) -> (res: u64)
    ensures
        res as int == match elapsed {
            Some(millis) => millis as int % 0x1_0000_0000_0000_0000,
            None => 0,
        },
{
    match elapsed {
        Some(millis) => {
            let low: u64 = (millis % 0x1_0000_0000_0000_0000) as u64;
            low
        },
        None => 0,
    }
}

/// `ms` is what was read off the clock: the milliseconds from the epoch to a time that the clock
/// showed, or zero for a time before the epoch.
pub closed spec fn is_reading(ms: u64) -> bool {
    exists|time: std::time::SystemTime| #[trigger] is_reading_of(time, ms)
}

spec fn is_reading_of(time: std::time::SystemTime, ms: u64) -> bool {
    &&& call_ensures(system_time, (), time)
    &&& exists|elapsed: Option<std::time::Duration>| #[trigger]
        call_ensures(since_epoch, (time,), elapsed) && match elapsed {
            Some(span) => exists|millis: u128| #[trigger]
                call_ensures(whole_millis, (span,), millis) && ms as int == millis as int
                    % 0x1_0000_0000_0000_0000,
            None => ms == 0,
        }
}

/// A reading comes from a call that read the clock.
proof fn law_readings_come_from_the_clock(ms: u64)
    requires
        is_reading(ms),
    ensures
        exists|time: std::time::SystemTime, elapsed: Option<std::time::Duration>|
            #![trigger call_ensures(since_epoch, (time,), elapsed)]
            call_ensures(system_time, (), time) && call_ensures(since_epoch, (time,), elapsed) && (
            elapsed is None ==> ms == 0) && (elapsed matches Some(span) ==> exists|millis: u128|
                #[trigger] call_ensures(whole_millis, (span,), millis) && ms as int == millis as int
                    % 0x1_0000_0000_0000_0000),
{
    let time = choose|time: std::time::SystemTime| #[trigger] is_reading_of(time, ms);
    assert(is_reading_of(time, ms));
}

/// The current time in milliseconds since the epoch, or zero before it. What the clock shows
/// cannot be said beforehand; [`stamp`] says what is made of it.
pub fn now_ms() -> (res: u64)
    ensures
        is_reading(res),
{
    let time = system_time();
    let elapsed = since_epoch(time);
    let res: u64 = match elapsed {
        Some(span) => stamp(Some(whole_millis(span))),
        None => stamp(None),
    };
    assert(is_reading_of(time, res));
    res
}

} // verus!

//! Points in time and spans of time of the standard library, as far as the
//! crate reasons about them: in whole microseconds.

use vstd::prelude::*;
use std::time::{Duration, SystemTime};

verus! {

/// `std::time::SystemTime`: a point in time as the system clock counts it.
/// Nothing is known of what a value holds but through [`since_epoch`].
#[verifier::external_type_specification]
#[verifier::external_body]
pub struct ExSystemTime(std::time::SystemTime);

/// The whole microseconds that a span of time holds.
pub uninterp spec fn micros_of(span: Duration) -> nat;

/// The span of time from the Unix epoch to `time`, where `time` is not
/// before the epoch.
pub uninterp spec fn since_epoch(time: SystemTime) -> Option<Duration>;

/// `Duration::as_micros`: the whole microseconds that the span holds.
pub assume_specification[ Duration::as_micros ](span: &Duration) -> (r: u128)
    ensures
        r == micros_of(*span),
;

/// `Duration::from_micros`: the span of `micros` microseconds.
pub assume_specification[ Duration::from_micros ](micros: u64) -> (r: Duration)
    ensures
        micros_of(r) == micros,
;

/// `SystemTime::now`: what the system clock reads. Nothing is known of it.
pub assume_specification[ SystemTime::now ]() -> (r: SystemTime)
;

/// `SystemTime::duration_since`, from the Unix epoch: the span from the
/// epoch to `time`, which the standard library gives where `time` is not
/// before the epoch.
#[verifier::external_body]
pub(crate) fn span_since_epoch(time: &SystemTime) -> (r: Option<Duration>)
    ensures
        r == since_epoch(*time),
{
    match time.duration_since(SystemTime::UNIX_EPOCH) {
        Ok(span) => Some(span),
        Err(_) => None,
    }
}

/// `SystemTime::checked_add`, on the Unix epoch: the time that lies `span`
/// after the epoch, where the system can hold it. The span from the epoch to
/// that time holds as many whole microseconds as `span`.
#[verifier::external_body]
pub(crate) fn epoch_plus(span: Duration) -> (r: Option<SystemTime>)
    ensures
        r matches Some(time) ==> since_epoch(time) matches Some(back) && micros_of(back)
            == micros_of(span),
{
    SystemTime::UNIX_EPOCH.checked_add(span)
}

/// The microseconds of a span as the crate holds them: in 64 bits, the
/// higher ones cut off.
pub open spec fn held_micros(micros: nat) -> u64 {
    (micros % 0x1_0000_0000_0000_0000) as u64
}

/// The microseconds from the Unix epoch to `time`, as the crate holds them.
pub fn micros_since_epoch(time: &SystemTime) -> (r: Option<u64>)
    ensures
        r == match since_epoch(*time) {
            Some(span) => Some(held_micros(micros_of(span))),
            None => None,
        },
{
    match span_since_epoch(time) {
        Some(span) => Some(span_micros(&span)),
        None => None,
    }
}

/// The microseconds of `span`, as the crate holds them.
pub fn span_micros(span: &Duration) -> (r: u64)
    ensures
        r == held_micros(micros_of(*span)),
{
    let micros: u128 = span.as_micros();
    let low: u128 = micros % 0x1_0000_0000_0000_0000u128;
    low as u64
}

/// Whether `r` is the gap between two points in time, both in microseconds
/// since the Unix epoch: `Ok` with the span from `from` to `to` where `to`
/// is not the earlier one, else `Err` with the span from `to` to `from`.
pub open spec fn is_gap(r: Result<Duration, Duration>, from: u64, to: u64) -> bool {
    match r {
        Ok(span) => from <= to && micros_of(span) == to - from,
        Err(span) => to < from && micros_of(span) == from - to,
    }
}

/// The gap from `from` to `to`, both in microseconds since the Unix epoch.
pub fn gap(from: u64, to: u64) -> (r: Result<Duration, Duration>)
    ensures
        is_gap(r, from, to),
{
    if to < from {
        Err(Duration::from_micros(from - to))
    } else {
        Ok(Duration::from_micros(to - from))
    }
}

} // verus!

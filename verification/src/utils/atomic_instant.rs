//! A point in time that any task may read and set without a lock.

use vstd::prelude::*;
use std::sync::atomic::{AtomicU64, Ordering};
use std::time::{Duration, SystemTime};
use crate::utils::clock::{
    epoch_plus, gap, held_micros, is_gap, micros_of, micros_since_epoch, since_epoch,
    span_micros,
};

verus! {

/// Whether `r` is the span from an instant to the clock reading `clock`:
/// there is none where the clock stands before the Unix epoch, else it is
/// the gap from what the instant held when it was read to the reading, in
/// whole microseconds.
pub open spec fn is_span_until(r: Option<Result<Duration, Duration>>, clock: SystemTime) -> bool {
    match since_epoch(clock) {
        Some(at) => r matches Some(span) && exists|read: u64|
            is_gap(span, read, held_micros(micros_of(at))),
        None => r is None,
    }
}

/// A point in time, held as the microseconds since the Unix epoch in one
/// atomic cell. What the cell holds may change between any two reads, so the
/// contracts below speak of a value that was read, not of the cell.
#[derive(Debug)]
pub struct AtomicInstant {
    inner: AtomicU64,
}

impl AtomicInstant {
    /// The instant `val` microseconds after the Unix epoch.
    pub fn new(val: u64) -> (r: AtomicInstant) {
        AtomicInstant { inner: AtomicU64::new(val) }
    }

    /// The instant of the Unix epoch, which stands for no time at all.
    pub fn empty() -> (r: AtomicInstant) {
        AtomicInstant::new(0)
    }

    /// The instant that the system clock reads, if the clock is not before
    /// the Unix epoch: there is an instant exactly where the reading that
    /// was taken is not before the epoch.
    pub fn now() -> (r: Option<AtomicInstant>)
        ensures
            exists|clock: SystemTime| r is Some <==> since_epoch(clock) is Some,
    {
        let time = SystemTime::now();
        let r = match micros_since_epoch(&time) {
            Some(micros) => Some(AtomicInstant::new(micros)),
            None => None,
        };
        assert(r is Some <==> since_epoch(time) is Some);
        r
    }

    /// Sets the instant to what the system clock reads. Where the clock is
    /// before the Unix epoch the instant stays as it is, and `false` comes
    /// back: the result says whether the reading that was taken is not
    /// before the epoch.
    pub fn to_now(&self) -> (r: bool)
        ensures
            exists|clock: SystemTime| r == since_epoch(clock) is Some,
    {
        let time = SystemTime::now();
        let r = match micros_since_epoch(&time) {
            Some(micros) => {
                self.inner.store(micros, Ordering::Relaxed);
                true
            },
            None => false,
        };
        assert(r == since_epoch(time) is Some);
        r
    }

    /// The microseconds since the Unix epoch that the instant holds.
    pub fn micros(&self) -> (r: u64) {
        self.inner.load(Ordering::Relaxed)
    }

    /// The instant as a time of the system, where the system can hold it:
    /// the time lies as many microseconds after the Unix epoch as were read,
    /// which fit in 64 bits.
    pub fn to_system_time(&self) -> (r: Option<SystemTime>)
        ensures
            r matches Some(time) ==> since_epoch(time) matches Some(span) && micros_of(span)
                <= u64::MAX,
    {
        let micros: u64 = self.micros();
        let span = Duration::from_micros(micros);
        let r = epoch_plus(span);
        assert(r matches Some(time) ==> since_epoch(time) matches Some(s) && micros_of(s)
            == micros);
        r
    }

    /// The span from the instant to `later`: `Ok` where `later` is not the
    /// earlier one, else `Err` with the span from `later` to the instant.
    pub fn duration_until(&self, later: SystemTime) -> (r: Result<Duration, Duration>)
        requires
            since_epoch(later) is Some,
        ensures
            exists|read: u64|
                is_gap(r, read, held_micros(micros_of(since_epoch(later)->Some_0))),
    {
        let later: u64 = match micros_since_epoch(&later) {
            Some(micros) => micros,
            None => vstd::pervasive::unreached(),
        };
        let read: u64 = self.micros();
        let r = gap(read, later);
        assert(is_gap(r, read, later));
        r
    }

    /// The span from `earlier` to the instant: `Ok` where the instant is not
    /// the earlier one, else `Err` with the span from the instant to
    /// `earlier`.
    pub fn duration_since(&self, earlier: SystemTime) -> (r: Result<Duration, Duration>)
        requires
            since_epoch(earlier) is Some,
        ensures
            exists|read: u64|
                is_gap(r, held_micros(micros_of(since_epoch(earlier)->Some_0)), read),
    {
        let earlier: u64 = match micros_since_epoch(&earlier) {
            Some(micros) => micros,
            None => vstd::pervasive::unreached(),
        };
        let read: u64 = self.micros();
        let r = gap(earlier, read);
        assert(is_gap(r, earlier, read));
        r
    }

    /// The span from the instant to what the system clock reads, if the
    /// clock is not before the Unix epoch: `Ok` where the reading is not the
    /// earlier one, else `Err` with the span from the reading to the
    /// instant.
    pub fn elapsed(&self) -> (r: Option<Result<Duration, Duration>>)
        ensures
            exists|clock: SystemTime| is_span_until(r, clock),
    {
        let time = SystemTime::now();
        let r = match micros_since_epoch(&time) {
            Some(clock) => {
                let read: u64 = self.micros();
                let span = gap(read, clock);
                assert(is_gap(span, read, clock));
                Some(span)
            },
            None => None,
        };
        assert(is_span_until(r, time));
        r
    }

    /// Moves the instant forward by `duration`, counted in whole
    /// microseconds. The sum wraps around at 64 bits.
    pub fn add(&self, duration: Duration) {
        self.inner.fetch_add(span_micros(&duration), Ordering::Relaxed);
    }

    /// Moves the instant back by `duration`, counted in whole microseconds.
    /// The difference wraps around at 64 bits.
    pub fn sub(&self, duration: Duration) {
        self.inner.fetch_sub(span_micros(&duration), Ordering::Relaxed);
    }

    /// A new instant that holds what this one holds now.
    pub fn copy(&self) -> (r: AtomicInstant) {
        AtomicInstant { inner: AtomicU64::new(self.inner.load(Ordering::Acquire)) }
    }
}

} // verus!

//! Monotonic instants and durations as plain values.
//!
//! An [`Instant`] counts nanoseconds on a clock that starts at [`CLOCK_ORIGIN`], so that the
//! instants of the three centuries before the start can be written down too. A [`Duration`]
//! covers whole seconds up to `u64::MAX`, with nanosecond resolution.

use vstd::prelude::*;

verus! {

/// Nanoseconds in one second.
pub const NANOS_PER_SEC: u64 = 1_000_000_000;

/// Nanoseconds in one millisecond.
pub const NANOS_PER_MILLI: u64 = 1_000_000;

/// Reading of a [`Clock`] at the moment when it is started.
pub const CLOCK_ORIGIN: u64 = 0x8000_0000_0000_0000;

/// Seconds that the machine's clock can be set back by. Its readings are whole seconds of 64 bits
/// with a sign, counted from about the start of the machine.
pub const FARTHEST_BACK_SECS: u64 = 0x8000_0000_0000_0000;

/// A span of time.
#[derive(Debug, Clone, Copy, PartialEq, Eq, Structural)]
pub struct Duration {
    secs: u64,
    subsec_nanos: u32,
}

impl Duration {
    #[verifier::type_invariant]
    closed spec fn normalized(self) -> bool {
        self.subsec_nanos < NANOS_PER_SEC
    }

    /// Length of the span in nanoseconds.
    pub closed spec fn nanos(self) -> nat {
        (self.secs * NANOS_PER_SEC + self.subsec_nanos) as nat
    }

    /// A span of whole seconds and a part of another one.
    pub fn new(secs: u64, subsec_nanos: u32) -> (res: Duration)
        requires
            subsec_nanos < NANOS_PER_SEC,
        ensures
            res.nanos() == secs * NANOS_PER_SEC + subsec_nanos,
    {
        Duration { secs, subsec_nanos }
    }

    /// A span of whole seconds.
    pub fn from_secs(secs: u64) -> (res: Duration)
        ensures
            res.nanos() == secs * NANOS_PER_SEC,
    {
        Duration { secs, subsec_nanos: 0 }
    }

    /// A span of whole milliseconds.
    pub fn from_millis(millis: u64) -> (res: Duration)
        ensures
            res.nanos() == millis * NANOS_PER_MILLI,
    {
        let secs: u64 = millis / 1000;
        let rest: u32 = (millis % 1000) as u32;
        Duration { secs, subsec_nanos: rest * 1_000_000 }
    }

    /// A span of whole nanoseconds.
    pub fn from_nanos(nanos: u64) -> (res: Duration)
        ensures
            res.nanos() == nanos,
    {
        Duration {
            secs: nanos / NANOS_PER_SEC,
            subsec_nanos: (nanos % NANOS_PER_SEC) as u32,
        }
    }

    /// Whether the span has no length.
    pub fn is_zero(self) -> (res: bool)
        ensures
            res == (self.nanos() == 0),
    {
        self.secs == 0 && self.subsec_nanos == 0
    }

    /// Length in whole seconds, rounded down.
    pub fn as_secs(self) -> (res: u64)
        ensures
            res == self.nanos() / (NANOS_PER_SEC as nat),
    {
        proof {
            use_type_invariant(&self);
        }
        self.secs
    }

    /// Length in nanoseconds.
    pub fn as_nanos(self) -> (res: u128)
        ensures
            res == self.nanos(),
    {
        proof {
            use_type_invariant(&self);
        }
        self.secs as u128 * 1_000_000_000 + self.subsec_nanos as u128
    }

    /// Length in whole milliseconds, rounded down.
    pub fn as_millis(self) -> (res: u128)
        ensures
            res == self.nanos() / (NANOS_PER_MILLI as nat),
    {
        self.as_nanos() / NANOS_PER_MILLI as u128
    }

    /// Whether this span is at least as long as `other`.
    pub fn at_least(self, other: Duration) -> (res: bool)
        ensures
            res == (self.nanos() >= other.nanos()),
    {
        self.as_nanos() >= other.as_nanos()
    }

    /// The longer of two spans.
    pub fn max(self, other: Duration) -> (res: Duration)
        ensures
            res.nanos() == (if self.nanos() >= other.nanos() {
                self.nanos()
            } else {
                other.nanos()
            }),
    {
        if self.at_least(other) {
            self
        } else {
            other
        }
    }
}

/// A point in time.
#[derive(Debug, Clone, Copy, PartialEq, Eq, Structural)]
pub struct Instant {
    /// Reading of the clock, in nanoseconds.
    pub nanos: u64,
}

/// The reading `window` before `now`, held at the first one that can be written down, or `now` itself
/// where the machine's clock cannot be set back that far.
pub open spec fn cutoff_before(now: Instant, window: Duration) -> Instant {
    if window.nanos() / (NANOS_PER_SEC as nat) > FARTHEST_BACK_SECS {
        now
    } else if window.nanos() <= now.nanos {
        Instant { nanos: (now.nanos - window.nanos()) as u64 }
    } else {
        Instant { nanos: 0 }
    }
}

/// Whole milliseconds between two instants, none if they are in the wrong order.
pub open spec fn millis_between(from: Instant, to: Instant) -> u64 {
    if from.nanos <= to.nanos {
        ((to.nanos - from.nanos) / NANOS_PER_MILLI as int) as u64
    } else {
        0
    }
}

impl Instant {
    /// The instant `span` earlier, held at the first one that can be written down; `None` where the
    /// machine's clock cannot be set back that far. No instant is before the first one, so nothing
    /// that is compared with it is older.
    pub fn checked_sub(self, span: Duration) -> (res: Option<Instant>)
        ensures
            match res {
                Some(earlier) => {
                    &&& span.nanos() / (NANOS_PER_SEC as nat) <= FARTHEST_BACK_SECS
                    &&& earlier.nanos == (if span.nanos() <= self.nanos {
                        self.nanos - span.nanos()
                    } else {
                        0
                    })
                },
                None => span.nanos() / (NANOS_PER_SEC as nat) > FARTHEST_BACK_SECS,
            },
    {
        if span.as_secs() > FARTHEST_BACK_SECS {
            return None;
        }
        let length: u128 = span.as_nanos();
        if length <= self.nanos as u128 {
            Some(Instant { nanos: (self.nanos as u128 - length) as u64 })
        } else {
            Some(Instant { nanos: 0 })
        }
    }

    /// This instant, or `earlier` where that one is not earlier.
    pub fn no_earlier_than(self, earlier: Instant) -> (res: Instant)
        ensures
            res.nanos == (if self.nanos >= earlier.nanos {
                self.nanos
            } else {
                earlier.nanos
            }),
    {
        if self.nanos >= earlier.nanos {
            self
        } else {
            earlier
        }
    }

    /// Whole milliseconds passed since `earlier`, none if `earlier` lies in the future.
    pub fn millis_since(self, earlier: Instant) -> (res: u64)
        ensures
            res == millis_between(earlier, self),
    {
        let millis: u128 = self.saturating_duration_since(earlier).as_millis();
        millis as u64
    }

    /// Time passed since `earlier`, or `None` if `earlier` lies in the future.
    pub fn checked_duration_since(self, earlier: Instant) -> (res: Option<Duration>)
        ensures
            match res {
                Some(elapsed) => earlier.nanos <= self.nanos && elapsed.nanos() == self.nanos
                    - earlier.nanos,
                None => earlier.nanos > self.nanos,
            },
    {
        if earlier.nanos <= self.nanos {
            Some(Duration::from_nanos(self.nanos - earlier.nanos))
        } else {
            None
        }
    }

    /// Time passed since `earlier`, zero if `earlier` lies in the future.
    pub fn saturating_duration_since(self, earlier: Instant) -> (res: Duration)
        ensures
            res.nanos() == (if earlier.nanos <= self.nanos {
                self.nanos - earlier.nanos
            } else {
                0
            }),
    {
        match self.checked_duration_since(earlier) {
            Some(elapsed) => elapsed,
            None => Duration::from_nanos(0),
        }
    }
}

/// Opaque reading of the machine's monotonic clock.
#[verifier::external_type_specification]
#[verifier::external_body]
pub struct ExMachineInstant(std::time::Instant);

/// `std::time::Instant::now` reads the machine's monotonic clock. Nothing is claimed of the reading.
pub assume_specification[ std::time::Instant::now ]() -> std::time::Instant
;

/// `std::time::Instant::elapsed` measures the time since a reading. Nothing is claimed of the result.
pub assume_specification[ std::time::Instant::elapsed ](
    start: &std::time::Instant,
) -> std::time::Duration
;

/// `std::time::Duration::as_nanos` counts the nanoseconds of a span. Nothing is claimed of the number.
pub assume_specification[ std::time::Duration::as_nanos ](span: &std::time::Duration) -> u128
;

/// A running clock that hands out [`Instant`]s.
pub struct Clock {
    start: std::time::Instant,
}

impl Clock {
    /// Starts a clock. Nothing is claimed of the machine's reading that it counts from;
    /// [`Clock::instant_after`] says which instant follows from the time since.
    pub fn start() -> Clock {
        Clock { start: std::time::Instant::now() }
    }

    /// The instant `elapsed` nanoseconds after the start of a clock, held at the last instant that can
    /// be written down.
    pub fn instant_after(elapsed: u128) -> (res: Instant)
        ensures
            res.nanos == (if CLOCK_ORIGIN + elapsed <= u64::MAX {
                CLOCK_ORIGIN + elapsed
            } else {
                u64::MAX as int
            }),
    {
        let room: u64 = u64::MAX - CLOCK_ORIGIN;
        if elapsed <= room as u128 {
            Instant { nanos: CLOCK_ORIGIN + elapsed as u64 }
        } else {
            Instant { nanos: u64::MAX }
        }
    }

    /// The current instant, which is never before the start.
    pub fn now(&self) -> (res: Instant)
        ensures
            res.nanos >= CLOCK_ORIGIN,
    {
        Clock::instant_after(self.start.elapsed().as_nanos())
    }
}

/// Opaque reading of the machine's calendar clock.
#[verifier::external_type_specification]
#[verifier::external_body]
pub struct ExSystemTime(std::time::SystemTime);

/// Opaque error of a calendar reading that lies before another one.
#[verifier::external_type_specification]
#[verifier::external_body]
pub struct ExSystemTimeError(std::time::SystemTimeError);

/// `std::time::SystemTime::now` reads the calendar clock. Nothing is claimed of the reading.
pub assume_specification[ std::time::SystemTime::now ]() -> std::time::SystemTime
;

/// `std::time::SystemTime::duration_since` measures the time between two readings. Nothing is claimed
/// of the result.
pub assume_specification[ std::time::SystemTime::duration_since ](
    later: &std::time::SystemTime,
    earlier: std::time::SystemTime,
) -> Result<std::time::Duration, std::time::SystemTimeError>
;

/// `std::time::Duration::as_secs` counts the whole seconds of a span. Nothing is claimed of the number.
pub assume_specification[ std::time::Duration::as_secs ](span: &std::time::Duration) -> u64
;

/// `std::time::UNIX_EPOCH` is the reading from which calendar seconds are counted.
#[verifier::external_body]
fn unix_epoch() -> std::time::SystemTime {
    std::time::UNIX_EPOCH
}

/// Seconds of the calendar clock since the epoch, zero where the clock is set before it. Nothing is
/// claimed of the number, which is the machine's; [`epoch_secs`] says what becomes of a reading.
pub fn now_epoch_secs() -> u64 {
    let since_epoch = match std::time::SystemTime::now().duration_since(unix_epoch()) {
        Ok(span) => Some(span.as_secs()),
        Err(_) => None,
    };
    epoch_secs(since_epoch)
}

/// Seconds that a calendar clock shows which has run so many seconds since the epoch, or which is set
/// before it.
pub fn epoch_secs(since_epoch: Option<u64>) -> (res: u64)
    ensures
        res == (match since_epoch {
            Some(secs) => secs,
            None => 0,
        }),
{
    match since_epoch {
        Some(secs) => secs,
        None => 0,
    }
}

/// The cutoff lies exactly a window before the present, wherever the window fits before it. A longer
/// window reaches back to the first reading, and only a window that no clock can be set back by leaves
/// the cutoff at the present.
pub proof fn law_cutoff_lies_a_window_back(now: Instant, window: Duration)
    ensures
        window.nanos() <= now.nanos ==> cutoff_before(now, window).nanos + window.nanos()
            == now.nanos,
        now.nanos < window.nanos() < 9_223_372_036_854_775_809_000_000_000 ==> cutoff_before(
            now,
            window,
        ).nanos == 0,
        window.nanos() >= 9_223_372_036_854_775_809_000_000_000 ==> cutoff_before(now, window)
            == now,
{
}

/// An instant is before the cutoff exactly if more than a window has passed since it.
pub proof fn law_older_than_the_cutoff_is_older_than_the_window(
    now: Instant,
    window: Duration,
    at: Instant,
)
    requires
        window.nanos() < 9_223_372_036_854_775_809_000_000_000,
    ensures
        at.nanos < cutoff_before(now, window).nanos <==> at.nanos + window.nanos() < now.nanos,
{
}

/// Milliseconds are whole, rounded down, and none where the instants are in the wrong order.
pub proof fn law_milliseconds_are_rounded_down(from: Instant, to: Instant)
    ensures
        from.nanos <= to.nanos ==> 1_000_000 * millis_between(from, to) <= to.nanos - from.nanos
            < 1_000_000 * millis_between(from, to) + 1_000_000,
        to.nanos < from.nanos ==> millis_between(from, to) == 0,
{
}

/// A time in milliseconds is that from one instant to another, rounded down; none where they are in the
/// wrong order.
pub open spec fn is_millis(millis: u64, from: Instant, to: Instant) -> bool {
    if from.nanos <= to.nanos {
        1_000_000 * millis <= to.nanos - from.nanos < 1_000_000 * millis + 1_000_000
    } else {
        millis == 0
    }
}

} // verus!

//! A pausable stopwatch.
//!
//! The stopwatch adds up the lengths of the intervals during which it ran.
//! Its state, as the contracts see it, is the number of nanoseconds recorded so
//! far and whether it is running. The clock itself is not modelled: a reading
//! of the clock may be any length, and each contract says what holds for every
//! reading.

use crate::clock::{clock_string_of_nanos, format_clock};
use std::time::{Duration, Instant};
use vstd::prelude::*;

verus! {

/// Trusted: the type `std::time::Instant`, a reading of the monotonic clock.
/// Nothing of what it holds is visible to the contracts.
#[verifier::external_type_specification]
#[verifier::external_body]
pub struct ExInstant(Instant);

/// The longest time a `Duration` holds, in nanoseconds: `u64::MAX` seconds and
/// 999,999,999 nanoseconds.
pub const MAX_DURATION_NANOS: u128 = 18_446_744_073_709_551_615_999_999_999;

/// The length of a `Duration` in nanoseconds, as `Duration::as_nanos` returns
/// it. Trusted: a `Duration` shows nothing of itself to the contracts, so this
/// name stands for its length; the two wrappers below say what it is of the
/// duration that they take or make.
pub uninterp spec fn duration_nanos(d: Duration) -> nat;

/// Trusted: `Instant::now`. Nothing is claimed of the instant it returns.
#[verifier::external_body]
fn instant_now() -> Instant {
    Instant::now()
}

/// Trusted: `Instant::elapsed`, the time that has passed since the instant.
/// Nothing is claimed of its length.
#[verifier::external_body]
fn instant_elapsed(since: &Instant) -> Duration {
    since.elapsed()
}

/// Trusted: `Duration::as_nanos`, which returns the whole length of the
/// duration in nanoseconds.
#[verifier::external_body]
fn duration_as_nanos(d: &Duration) -> (n: u128)
    ensures
        n == duration_nanos(*d),
{
    d.as_nanos()
}

/// Trusted: `Duration::new`, which makes the duration of `secs` whole seconds
/// and `subsec_nanos` further nanoseconds. With less than a second of
/// nanoseconds nothing is carried, so the call does not overflow.
#[verifier::external_body]
fn duration_new(secs: u64, subsec_nanos: u32) -> (d: Duration)
    requires
        subsec_nanos < 1_000_000_000,
    ensures
        duration_nanos(d) == secs * 1_000_000_000 + subsec_nanos,
{
    Duration::new(secs, subsec_nanos)
}

/// The sum of `accumulated` and `elapsed` nanoseconds, held at the longest
/// time a `Duration` can express.
pub open spec fn accumulate(accumulated: nat, elapsed: nat) -> nat {
    if accumulated + elapsed <= MAX_DURATION_NANOS {
        accumulated + elapsed
    } else {
        MAX_DURATION_NANOS as nat
    }
}

/// Recording an interval takes no time away, and two intervals in turn record
/// what one interval of their joint length records: below the longest time
/// that can be held their sum, which grows with every nanosecond.
pub proof fn lemma_accumulate_cycles(accumulated: nat, first: nat, second: nat)
    requires
        accumulated <= MAX_DURATION_NANOS,
    ensures
        accumulated <= accumulate(accumulated, first) <= MAX_DURATION_NANOS,
        accumulate(accumulate(accumulated, first), second) == accumulate(
            accumulated,
            first + second,
        ),
        accumulated + first + second <= MAX_DURATION_NANOS ==> accumulate(
            accumulate(accumulated, first),
            second,
        ) == accumulated + first + second,
        second > 0 && accumulated + first + second <= MAX_DURATION_NANOS ==> accumulate(
            accumulate(accumulated, first),
            second,
        ) > accumulate(accumulated, first),
{
}

/// Adds an elapsed interval to an accumulated time, both in nanoseconds.
pub fn add_elapsed(accumulated: u128, elapsed: u128) -> (total: u128)
    ensures
        total == accumulate(accumulated as nat, elapsed as nat),
{
    if accumulated > MAX_DURATION_NANOS || elapsed > MAX_DURATION_NANOS - accumulated {
        MAX_DURATION_NANOS
    } else {
        accumulated + elapsed
    }
}

/// What a contract sees of a stopwatch.
pub struct StopWatchView {
    /// Nanoseconds recorded by the intervals that have ended.
    pub accumulated: nat,
    /// Whether an interval is under way.
    pub running: bool,
}

/// Measures elapsed time over any number of start/stop cycles.
pub struct StopWatch {
    accumulated: u128,
    checkpoint: Instant,
    is_stopped: bool,
}

impl View for StopWatch {
    type V = StopWatchView;

    closed spec fn view(&self) -> StopWatchView {
        StopWatchView { accumulated: self.accumulated as nat, running: !self.is_stopped }
    }
}

impl StopWatch {
    #[verifier::type_invariant]
    spec fn in_range(self) -> bool {
        self.accumulated <= MAX_DURATION_NANOS
    }

    /// Creates a stopwatch that is stopped and has recorded nothing.
    pub fn new() -> (watch: StopWatch)
        ensures
            watch@ == (StopWatchView { accumulated: 0, running: false }),
    {
        StopWatch { accumulated: 0, checkpoint: instant_now(), is_stopped: true }
    }

    /// Starts an interval, unless one is under way.
    pub fn start(&mut self)
        ensures
            final(self)@ == (StopWatchView { accumulated: old(self)@.accumulated, running: true }),
            old(self)@.running ==> *final(self) == *old(self),
    {
        proof {
            use_type_invariant(&*self);
        }
        if self.is_stopped {
            self.checkpoint = instant_now();
            self.is_stopped = false;
        }
    }

    /// Resumes the measurement; the same as `start`.
    pub fn resume(&mut self)
        ensures
            final(self)@ == (StopWatchView { accumulated: old(self)@.accumulated, running: true }),
            old(self)@.running ==> *final(self) == *old(self),
    {
        self.start()
    }

    /// Forgets what was recorded and stops.
    pub fn reset(&mut self)
        ensures
            final(self)@ == (StopWatchView { accumulated: 0, running: false }),
    {
        self.accumulated = 0;
        self.checkpoint = instant_now();
        self.is_stopped = true;
    }

    /// Ends the interval under way, if there is one, and adds `elapsed`
    /// nanoseconds to what was recorded: what `stop` does once it has read
    /// from the clock how long the interval was.
    pub fn stop_after(&mut self, elapsed: u128)
        ensures
            !old(self)@.running ==> *final(self) == *old(self),
            old(self)@.running ==> final(self)@ == (StopWatchView {
                accumulated: accumulate(old(self)@.accumulated, elapsed as nat),
                running: false,
            }),
    {
        proof {
            use_type_invariant(&*self);
        }
        if !self.is_stopped {
            let total = add_elapsed(self.accumulated, elapsed);
            self.accumulated = total;
            self.is_stopped = true;
        }
    }

    /// Ends the interval under way, if there is one, and adds its length to
    /// what was recorded.
    pub fn stop(&mut self)
        ensures
            !final(self)@.running,
            !old(self)@.running ==> *final(self) == *old(self),
            old(self)@.running ==> exists|elapsed: nat|
                final(self)@.accumulated == accumulate(old(self)@.accumulated, elapsed),
            old(self)@.accumulated <= final(self)@.accumulated <= MAX_DURATION_NANOS,
    {
        proof {
            use_type_invariant(&*self);
        }
        if !self.is_stopped {
            let elapsed = duration_as_nanos(&instant_elapsed(&self.checkpoint));
            self.stop_after(elapsed);
        }
    }

    /// Pauses the measurement; the same as `stop`.
    pub fn pause(&mut self)
        ensures
            !final(self)@.running,
            !old(self)@.running ==> *final(self) == *old(self),
            old(self)@.running ==> exists|elapsed: nat|
                final(self)@.accumulated == accumulate(old(self)@.accumulated, elapsed),
            old(self)@.accumulated <= final(self)@.accumulated <= MAX_DURATION_NANOS,
    {
        self.stop()
    }

    /// The time measured so far, in nanoseconds, where the interval under way,
    /// if there is one, has lasted `elapsed` nanoseconds: what
    /// `accumulated_nanos` returns once it has read the clock.
    pub fn reading_after(&self, elapsed: u128) -> (nanos: u128)
        ensures
            nanos == (if self@.running {
                accumulate(self@.accumulated, elapsed as nat)
            } else {
                self@.accumulated
            }),
            self@.accumulated <= nanos <= MAX_DURATION_NANOS,
    {
        proof {
            use_type_invariant(self);
        }
        if self.is_stopped {
            self.accumulated
        } else {
            add_elapsed(self.accumulated, elapsed)
        }
    }

    /// The time measured so far, in nanoseconds: what was recorded and, while
    /// running, the interval under way. The stopwatch is not changed.
    pub fn accumulated_nanos(&self) -> (nanos: u128)
        ensures
            !self@.running ==> nanos == self@.accumulated,
            self@.running ==> exists|elapsed: nat|
                nanos == accumulate(self@.accumulated, elapsed),
            self@.accumulated <= nanos <= MAX_DURATION_NANOS,
    {
        if self.is_stopped {
            self.reading_after(0)
        } else {
            let elapsed = duration_as_nanos(&instant_elapsed(&self.checkpoint));
            self.reading_after(elapsed)
        }
    }

    /// The time measured so far: what was recorded and, while running, the
    /// interval under way. The stopwatch is not changed.
    pub fn accumulated(&self) -> (total: Duration)
        ensures
            !self@.running ==> duration_nanos(total) == self@.accumulated,
            self@.running ==> exists|elapsed: nat|
                duration_nanos(total) == accumulate(self@.accumulated, elapsed),
            self@.accumulated <= duration_nanos(total) <= MAX_DURATION_NANOS,
    {
        let nanos = self.accumulated_nanos();
        let secs: u128 = nanos / 1_000_000_000;
        let rest: u128 = nanos % 1_000_000_000;
        duration_new(secs as u64, rest as u32)
    }

    /// The time measured so far as the clock text `HH:MM:SS.mmm`.
    pub fn to_string(&self) -> (text: String)
        ensures
            !self@.running ==> text@ == clock_string_of_nanos(self@.accumulated as int),
            self@.running ==> exists|elapsed: nat|
                text@ == clock_string_of_nanos(accumulate(self@.accumulated, elapsed) as int),
    {
        let nanos = self.accumulated_nanos();
        let secs: u128 = nanos / 1_000_000_000;
        let rest: u128 = nanos % 1_000_000_000;
        format_clock(secs as u64, rest as u32)
    }
}

impl Default for StopWatch {
    fn default() -> (watch: StopWatch)
        ensures
            watch@ == (StopWatchView { accumulated: 0, running: false }),
    {
        StopWatch::new()
    }
}

} // verus!

//! Spans of time with a resolution of one nanosecond.
use vstd::prelude::*;

verus! {

/// A span of time: whole seconds, and the nanoseconds beyond them.
#[derive(Debug, Clone, Copy, PartialEq, Eq, Structural)]
pub struct Duration {
    pub secs: u64,
    pub nanos: u32,
}

impl Duration {
    /// The length of the span in nanoseconds.
    pub open spec fn total_nanos(self) -> nat {
        self.secs as nat * 1_000_000_000 + self.nanos as nat
    }

    /// The span of `secs` seconds.
    pub open spec fn of_secs(secs: u64) -> Duration {
        Duration { secs, nanos: 0 }
    }

    /// The span of `millis` milliseconds.
    pub open spec fn of_millis(millis: u64) -> Duration {
        Duration { secs: millis / 1000, nanos: ((millis % 1000) * 1_000_000) as u32 }
    }

    pub fn from_secs(secs: u64) -> (r: Duration)
        ensures
            r == Duration::of_secs(secs),
            r.total_nanos() == secs * 1_000_000_000,
    {
        Duration { secs, nanos: 0 }
    }

    pub fn from_millis(millis: u64) -> (r: Duration)
        ensures
            r == Duration::of_millis(millis),
            r.total_nanos() == millis * 1_000_000,
            r.nanos < 1_000_000_000,
    {
        Duration { secs: millis / 1000, nanos: ((millis % 1000) * 1_000_000) as u32 }
    }
}

/// The span from `now` to `then`, both in seconds: one millisecond where `then` is not later.
pub open spec fn span_to(then: u64, now: u64) -> Duration {
    if then <= now {
        Duration::of_millis(1)
    } else {
        Duration::of_secs((then - now) as u64)
    }
}

pub(crate) fn seconds_until(then: u64, now: u64) -> (r: Duration)
    ensures
        r == span_to(then, now),
{
    if then <= now {
        Duration::from_millis(1)
    } else {
        Duration::from_secs(then - now)
    }
}

/// The span from `now` to `then`, both in milliseconds: one of them where `then` is not later.
pub open spec fn millis_to(then: u64, now: u64) -> Duration {
    if then <= now {
        Duration::of_millis(1)
    } else {
        Duration::of_millis((then - now) as u64)
    }
}

pub(crate) fn millis_until(then: u64, now: u64) -> (r: Duration)
    ensures
        r == millis_to(then, now),
{
    if then <= now {
        Duration::from_millis(1)
    } else {
        Duration::from_millis(then - now)
    }
}

/// Spans are as long as they say: so many seconds or milliseconds, or the time until another, which is
/// a millisecond where that is past.
pub proof fn law_spans(n: u64, then: u64, now: u64)
    ensures
        Duration::of_secs(n).total_nanos() == n * 1_000_000_000,
        Duration::of_millis(n).total_nanos() == n * 1_000_000,
        Duration::of_secs(n).nanos < 1_000_000_000 && Duration::of_millis(n).nanos < 1_000_000_000,
        then > now ==> span_to(then, now).total_nanos() == (then - now) * 1_000_000_000,
        then <= now ==> span_to(then, now).total_nanos() == 1_000_000,
        then > now ==> millis_to(then, now).total_nanos() == (then - now) * 1_000_000,
        then <= now ==> millis_to(then, now).total_nanos() == 1_000_000,
{
}

} // verus!

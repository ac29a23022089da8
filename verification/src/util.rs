//! Small utilities: the frame timing counter.

use vstd::prelude::*;

verus! {

/// Measures the time between consecutive frames.  The host reads its
/// monotonic clock and hands the reading in, in nanoseconds; the
/// counter keeps the previous reading and answers the distance.
#[derive(Debug)]
pub struct Counter(Option<u64>);

impl Counter {
    /// The reading remembered from the last tick.
    pub closed spec fn last(self) -> Option<u64> {
        self.0
    }

    /// A counter that has not ticked yet.
    pub fn new() -> (r: Counter)
        ensures
            r.last() is None,
    {
        Counter(None)
    }

    /// The nanoseconds since the previous tick: zero on the first
    /// tick, and zero again if the clock reading moved backwards.
    /// Remembers `now` for the next tick.
    pub fn tick(&mut self, now: u64) -> (r: u64)
        ensures
            final(self).last() == Some(now),
            r == (match old(self).last() {
                None => 0u64,
                Some(prev) => if now >= prev {
                    (now - prev) as u64
                } else {
                    0u64
                },
            }),
    {
        let last = self.0.take();
        let dur = match last {
            Some(prev) => if now >= prev {
                now - prev
            } else {
                0
            },
            None => 0,
        };
        self.0 = Some(now);
        dur
    }
}

impl Default for Counter {
    /// Same as [`Counter::new`].
    fn default() -> (r: Counter)
        ensures
            r.last() is None,
    {
        Counter(None)
    }
}

/// First delay of the reconnect backoff, in seconds.
pub const BACKOFF_DELAY_INITIAL_SECS: u64 = 1;

/// Largest delay the backoff ever reaches, in seconds.
pub const BACKOFF_DELAY_MAX_SECS: u64 = 15;

/// The delay to wait after one more failed reconnect attempt: capped
/// exponential backoff with a two-second increment.  A successful
/// connection resets the schedule to [`BACKOFF_DELAY_INITIAL_SECS`].
pub fn next_backoff_delay(delay_secs: u64) -> (r: u64)
    ensures
        r == (if delay_secs + 2 <= BACKOFF_DELAY_MAX_SECS {
            delay_secs + 2
        } else {
            BACKOFF_DELAY_MAX_SECS as int
        }),
{
    if delay_secs <= BACKOFF_DELAY_MAX_SECS - 2 {
        delay_secs + 2
    } else {
        BACKOFF_DELAY_MAX_SECS
    }
}

} // verus!

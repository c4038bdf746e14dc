//! Exponential backoff with a growing jitter window.
//!
//! Each failure sleeps for the current delay plus a uniformly random
//! jitter, doubles the delay up to a cap, and widens the jitter window by
//! a fixed step.  A success restores both to their minimums.

use vstd::prelude::*;
use crate::error::Error;

verus! {

pub const MIN_RETRY_DELAY_MILLIS: u32 = 100;

pub const MAX_RETRY_DELAY_MILLIS: u32 = 15000;

pub const BASE_RETRY_SCALING_MILLIS: u32 = 50;

/// The delay after one more failure: doubled, capped.
pub open spec fn failure_delay(d: u32) -> u32 {
    if d * 2 <= MAX_RETRY_DELAY_MILLIS {
        (d * 2) as u32
    } else {
        MAX_RETRY_DELAY_MILLIS
    }
}

/// The backoff state machine.
pub struct Retryer {
    delay_millis: u32,
    delay_scaling_millis: u32,
}

impl Retryer {
    /// The base delay the next failure will sleep at least for.
    pub closed spec fn delay(self) -> u32 {
        self.delay_millis
    }

    /// The width of the jitter window the next failure draws from.
    pub closed spec fn scaling(self) -> u32 {
        self.delay_scaling_millis
    }

    /// Every state reachable from `new` keeps the delay between its
    /// minimum and its cap and the jitter window at least its base width.
    pub open spec fn wf(self) -> bool {
        MIN_RETRY_DELAY_MILLIS <= self.delay() <= MAX_RETRY_DELAY_MILLIS
            && BASE_RETRY_SCALING_MILLIS <= self.scaling()
    }

    /// Below the cap the delay dominates the jitter window; this is what
    /// makes consecutive sleeps non-decreasing.
    pub open spec fn jitter_bounded(self) -> bool {
        self.delay() + 1 >= self.scaling()
    }

    /// A fresh state: minimum delay, base jitter window.
    pub fn new() -> (r: Self)
        ensures
            r.delay() == MIN_RETRY_DELAY_MILLIS,
            r.scaling() == BASE_RETRY_SCALING_MILLIS,
            r.wf(),
            r.jitter_bounded(),
    {
        Retryer {
            delay_millis: MIN_RETRY_DELAY_MILLIS,
            delay_scaling_millis: BASE_RETRY_SCALING_MILLIS,
        }
    }

    /// Restores the minimum delay and the base jitter window, as after
    /// any success.
    pub fn reset(&mut self)
        ensures
            final(self).delay() == MIN_RETRY_DELAY_MILLIS,
            final(self).scaling() == BASE_RETRY_SCALING_MILLIS,
            final(self).wf(),
            final(self).jitter_bounded(),
    {
        self.delay_millis = MIN_RETRY_DELAY_MILLIS;
        self.delay_scaling_millis = BASE_RETRY_SCALING_MILLIS;
    }

    /// Records one failure: draws a jitter below the current window,
    /// returns the time to sleep, doubles the delay up to the cap and
    /// widens the window.  The caller performs the sleep.
    ///
    /// Overflow of the jittered sum or of the window growth is reported
    /// as `ArithmeticOverflow`; neither can happen while the window is
    /// far from `u32::MAX`.
    pub fn failure(&mut self) -> (r: Result<u32, Error>)
        requires
            old(self).wf(),
        ensures
            final(self).wf(),
            r matches Ok(snooze) ==> {
                &&& old(self).delay() <= snooze < old(self).delay() + old(self).scaling()
                &&& final(self).delay() == failure_delay(old(self).delay())
                &&& final(self).scaling() == old(self).scaling() + BASE_RETRY_SCALING_MILLIS
                &&& final(self).wf()
                &&& (old(self).jitter_bounded() && old(self).delay() * 2 <= MAX_RETRY_DELAY_MILLIS
                    ==> final(self).jitter_bounded())
            },
            r matches Err(e) ==> e matches Error::ArithmeticOverflow(_),
            old(self).delay() + old(self).scaling() - 1 <= u32::MAX && old(self).scaling()
                + BASE_RETRY_SCALING_MILLIS <= u32::MAX ==> r is Ok,
    {
        let jitter: u32 = random_u32() % self.delay_scaling_millis;
        let snooze: u32 = match self.delay_millis.checked_add(jitter) {
            Some(s) => s,
            None => {
                return Err(Error::arithmetic("calculating snooze_time_millis"));
            },
        };
        let doubled: u32 = match self.delay_millis.checked_mul(2) {
            Some(d) => d,
            None => {
                return Err(Error::arithmetic("doubling delay_millis"));
            },
        };
        self.delay_millis = if doubled < MAX_RETRY_DELAY_MILLIS {
            doubled
        } else {
            MAX_RETRY_DELAY_MILLIS
        };
        self.delay_scaling_millis = match self.delay_scaling_millis.checked_add(
            BASE_RETRY_SCALING_MILLIS,
        ) {
            Some(s) => s,
            None => {
                return Err(Error::arithmetic("increasing delay_scaling_millis"));
            },
        };
        Ok(snooze)
    }
}

/// Backoff monotonicity, the rising half: starting from any reachable
/// state below the cap, the longest sleep one failure can draw is no
/// longer than the shortest sleep the next failure can draw, so
/// consecutive failure sleeps never decrease until the delay cap is hit.
pub proof fn lemma_backoff_monotonic(s: Retryer, j0: u32, j1: u32)
    requires
        s.wf(),
        s.jitter_bounded(),
        j0 < s.scaling(),
        s.delay() * 2 <= MAX_RETRY_DELAY_MILLIS,
    ensures
        s.delay() + j0 <= failure_delay(s.delay()) + j1,
{
}

/// Backoff monotonicity, the restoring half: no reachable state sleeps
/// for less than the minimum delay, and a success resets the state so
/// that the next sleep is drawn from exactly the minimum window.
pub proof fn lemma_snooze_floor(s: Retryer, j: u32)
    requires
        s.wf(),
        j < s.scaling(),
    ensures
        s.delay() + j >= MIN_RETRY_DELAY_MILLIS,
{
}

/// Relies on `rand::random`: an arbitrary `u32`; nothing is promised of
/// its value.
#[verifier::external_body]
fn random_u32() -> u32 {
    rand::random::<u32>()
}

} // verus!

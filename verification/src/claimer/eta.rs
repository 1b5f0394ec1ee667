//! Points in time and the estimate of the time that a batch still needs.
//!
//! The estimate assumes that every account still to be finished takes as long
//! as the interval between the two most recent finishes. There is no
//! smoothing and no history.

use vstd::prelude::*;

verus! {

pub const NANOS_PER_SEC: u128 = 1_000_000_000;

/// A point in time, counted in nanoseconds from an origin that the caller
/// picks once (the Unix epoch, say) and then keeps.
#[derive(Clone, Copy, Debug, PartialEq, Eq, Structural)]
pub struct Timestamp {
    pub nanos: u128,
}

impl Timestamp {
    /// Whole seconds that passed from `earlier` to `self`; fractions of a
    /// second are dropped.
    pub open spec fn whole_seconds_since(self, earlier: Timestamp) -> int {
        (self.nanos - earlier.nanos) / (NANOS_PER_SEC as int)
    }

    /// The point in time `secs` seconds and `subsec_nanos` nanoseconds after
    /// the origin.
    pub fn from_parts(secs: u64, subsec_nanos: u32) -> (t: Timestamp)
        ensures
            t.nanos == secs * NANOS_PER_SEC + subsec_nanos,
    {
        let whole: u128 = secs as u128 * NANOS_PER_SEC;
        Timestamp { nanos: whole + subsec_nanos as u128 }
    }

    /// The point in time `secs` whole seconds after the origin.
    pub fn from_secs(secs: u64) -> (t: Timestamp)
        ensures
            t.nanos == secs * NANOS_PER_SEC,
    {
        Timestamp::from_parts(secs, 0)
    }

    /// Whole seconds from `earlier` to `self`, or `None` where `earlier` is
    /// the later of the two or the count does not fit 64 bits.
    pub fn seconds_since(self, earlier: Timestamp) -> (elapsed: Option<u64>)
        ensures
            match elapsed {
                Some(s) => earlier.nanos <= self.nanos && s == self.whole_seconds_since(earlier),
                None => self.nanos < earlier.nanos || self.whole_seconds_since(earlier) > u64::MAX,
            },
    {
        if self.nanos < earlier.nanos {
            return None;
        }
        let seconds: u128 = (self.nanos - earlier.nanos) / NANOS_PER_SEC;
        if seconds > u64::MAX as u128 {
            None
        } else {
            Some(seconds as u64)
        }
    }
}

/// The estimate published after a finish: the seconds that passed since the
/// previous finish (or since the batch began), once for every account that is
/// still to be finished.
pub open spec fn estimate(previous: Timestamp, now: Timestamp, remaining: nat) -> int {
    now.whole_seconds_since(previous) * remaining
}

/// Computes [`estimate`], or `None` where `now` lies before `previous` or the
/// product does not fit 64 bits.
pub fn time_left(previous: Timestamp, now: Timestamp, remaining: u32) -> (eta: Option<u64>)
    ensures
        match eta {
            Some(e) => previous.nanos <= now.nanos && e == estimate(previous, now, remaining as nat),
            None => now.nanos < previous.nanos || estimate(previous, now, remaining as nat)
                > u64::MAX,
        },
{
    if now.nanos < previous.nanos {
        return None;
    }
    if remaining == 0 {
        assert(estimate(previous, now, 0) == 0) by (nonlinear_arith)
            requires
                estimate(previous, now, 0) == now.whole_seconds_since(previous) * 0,
        ;
        return Some(0);
    }
    match now.seconds_since(previous) {
        None => {
            proof {
                lemma_estimate_exceeds(now.whole_seconds_since(previous), remaining as nat);
            }
            None
        },
        Some(elapsed) => elapsed.checked_mul(remaining as u64),
    }
}

proof fn lemma_estimate_exceeds(seconds: int, remaining: nat)
    requires
        seconds > u64::MAX,
        remaining >= 1,
    ensures
        seconds * remaining > u64::MAX,
{
    assert(seconds * remaining >= seconds) by (nonlinear_arith)
        requires
            seconds > 0,
            remaining >= 1,
    ;
}

} // verus!

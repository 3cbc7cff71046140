//! Freshness check of the signal engine: the four analysis engines' latest
//! events are fused only while every one of them is recent.
use std::time::Instant;
use vstd::prelude::*;

use crate::clock::{monotonic_now, nanos_since};
use crate::throttle::elapsed;

verus! {

/// Events older than this are stale and are not fused: 30 seconds, in
/// nanoseconds.
pub const STALENESS_NANOS: u128 = 30_000_000_000;

/// The analysis engines whose events the signal engine fuses.
#[derive(Debug, Clone, Copy, PartialEq, Eq, Structural)]
pub enum Source {
    Regime,
    Trend,
    Reversal,
    Movement,
}

/// Whether an event received at `seen` (if ever) is still fresh at `now`.
pub open spec fn fresh(seen: Option<u128>, now: u128) -> bool {
    seen matches Some(t) && elapsed(now, t) < STALENESS_NANOS
}

/// Arrival times of each engine's latest event for one instrument and
/// timeframe, counted in ns from when the tracker was made.
pub struct FreshnessTracker {
    epoch: Instant,
    regime: Option<u128>,
    trend: Option<u128>,
    reversal: Option<u128>,
    movement: Option<u128>,
}

impl FreshnessTracker {
    /// When the latest event of `source` arrived, if one did.
    pub closed spec fn seen(&self, source: Source) -> Option<u128> {
        match source {
            Source::Regime => self.regime,
            Source::Trend => self.trend,
            Source::Reversal => self.reversal,
            Source::Movement => self.movement,
        }
    }

    /// A tracker that has seen no event.
    pub fn new() -> (tracker: Self)
        ensures
            forall|s: Source| tracker.seen(s) is None,
    {
        FreshnessTracker {
            epoch: monotonic_now(),
            regime: None,
            trend: None,
            reversal: None,
            movement: None,
        }
    }

    /// Notes that an event of `source` arrived at `at`.
    pub fn record_at(&mut self, source: Source, at: u128)
        ensures
            final(self).seen(source) == Some(at),
            forall|s: Source| s != source ==> final(self).seen(s) == old(self).seen(s),
    {
        match source {
            Source::Regime => self.regime = Some(at),
            Source::Trend => self.trend = Some(at),
            Source::Reversal => self.reversal = Some(at),
            Source::Movement => self.movement = Some(at),
        }
    }

    /// Whether every engine's latest event is fresh at `now`.
    pub fn all_fresh_at(&self, now: u128) -> (all: bool)
        ensures
            all == (fresh(self.seen(Source::Regime), now) && fresh(self.seen(Source::Trend), now)
                && fresh(self.seen(Source::Reversal), now) && fresh(
                self.seen(Source::Movement),
                now,
            )),
    {
        Self::is_fresh(self.regime, now) && Self::is_fresh(self.trend, now) && Self::is_fresh(
            self.reversal,
            now,
        ) && Self::is_fresh(self.movement, now)
    }

    fn is_fresh(seen: Option<u128>, now: u128) -> (f: bool)
        ensures
            f == fresh(seen, now),
    {
        match seen {
            Some(t) => {
                let age: u128 = if now >= t {
                    now - t
                } else {
                    0
                };
                age < STALENESS_NANOS
            },
            None => false,
        }
    }

    /// Notes that an event of `source` arrives now, on the monotonic clock.
    /// The reading is not known: the event is stamped with some reading.
    pub fn record(&mut self, source: Source)
        ensures
            final(self).seen(source) is Some,
            forall|s: Source| s != source ==> final(self).seen(s) == old(self).seen(s),
    {
        let now = nanos_since(&self.epoch);
        self.record_at(source, now);
    }

    /// Whether every engine's latest event is fresh now, on the monotonic
    /// clock. The reading is not known: the answer is that of `all_fresh_at`
    /// at some reading, and it is false while an engine has sent nothing.
    pub fn all_fresh(&self) -> (all: bool)
        ensures
            exists|now: u128|
                all == (fresh(self.seen(Source::Regime), now) && fresh(
                    self.seen(Source::Trend),
                    now,
                ) && fresh(self.seen(Source::Reversal), now) && fresh(
                    self.seen(Source::Movement),
                    now,
                )),
            (exists|s: Source| self.seen(s) is None) ==> !all,
    {
        let now = nanos_since(&self.epoch);
        self.all_fresh_at(now)
    }
}

} // verus!

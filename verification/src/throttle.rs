//! Orders-per-second throttle: keeps the number of orders placed within any
//! one-second window at or under a limit (SEBI OPS compliance).
use std::time::Instant;
use vstd::prelude::*;

use crate::clock::{monotonic_now, nanos_since};

verus! {

/// Length of the throttle's sliding window: one second, in nanoseconds.
pub const WINDOW_NANOS: u128 = 1_000_000_000;

/// Time elapsed from `t` to `now`, zero when `t` lies after `now`.
pub open spec fn elapsed(now: u128, t: u128) -> int {
    if now >= t {
        now - t
    } else {
        0
    }
}

/// Whether an acquisition stamped `t` still counts against the limit at `now`.
pub open spec fn in_window(now: u128, t: u128) -> bool {
    elapsed(now, t) < WINDOW_NANOS
}

/// The stamps of `stamps` that still count at `now`, in order.
pub open spec fn live_stamps(stamps: Seq<u128>, now: u128) -> Seq<u128> {
    stamps.filter(|t: u128| in_window(now, t))
}

/// Whether an acquisition at `now` is granted, given the earlier stamps.
pub open spec fn acquire_granted(max_ops: u32, stamps: Seq<u128>, now: u128) -> bool {
    live_stamps(stamps, now).len() < max_ops
}

/// The stamps kept after an acquisition attempt at `now`: the live ones,
/// and `now` itself when the acquisition is granted.
pub open spec fn acquire_state(max_ops: u32, stamps: Seq<u128>, now: u128) -> Seq<u128> {
    if acquire_granted(max_ops, stamps, now) {
        live_stamps(stamps, now).push(now)
    } else {
        live_stamps(stamps, now)
    }
}

/// Sliding-window limiter on the number of acquisitions per second.
pub struct OpsThrottle {
    max_ops: u32,
    epoch: Instant,
    timestamps: Vec<u128>,
}

impl OpsThrottle {
    /// The limit on acquisitions per window.
    pub closed spec fn limit(&self) -> u32 {
        self.max_ops
    }

    /// The stamps (nanoseconds on the throttle's monotonic clock) of the
    /// granted acquisitions that the throttle still remembers, in order.
    pub closed spec fn stamps(&self) -> Seq<u128> {
        self.timestamps@
    }

    /// A throttle that grants at most `max_ops` acquisitions per second.
    pub fn new(max_ops: u32) -> (t: Self)
        ensures
            t.limit() == max_ops,
            t.stamps() == Seq::<u128>::empty(),
    {
        let capacity: usize = if (max_ops as usize) < usize::MAX {
            max_ops as usize + 1
        } else {
            max_ops as usize
        };
        OpsThrottle { max_ops, epoch: monotonic_now(), timestamps: Vec::with_capacity(capacity) }
    }

    /// Attempts an acquisition at `now` nanoseconds on the throttle's clock:
    /// forgets the stamps that are a second or more old, then grants when
    /// fewer than the limit remain, remembering `now`.
    pub fn try_acquire_at(&mut self, now: u128) -> (granted: bool)
        ensures
            granted == acquire_granted(old(self).limit(), old(self).stamps(), now),
            final(self).stamps() == acquire_state(old(self).limit(), old(self).stamps(), now),
            final(self).limit() == old(self).limit(),
    {
        let mut kept: Vec<u128> = Vec::new();
        let n = self.timestamps.len();
        let mut i: usize = 0;
        while i < n
            invariant
                n == self.timestamps.len(),
                i <= n,
                kept@ == live_stamps(self.timestamps@.take(i as int), now),
            decreases n - i,
        {
            let t = self.timestamps[i];
            let age: u128 = if now >= t {
                now - t
            } else {
                0
            };
            proof {
                assert(self.timestamps@.take(i + 1) =~= self.timestamps@.take(i as int).push(t));
                self.timestamps@.take(i as int).lemma_filter_push(t, |t: u128| in_window(now, t));
            }
            if age < WINDOW_NANOS {
                kept.push(t);
            }
            i += 1;
        }
        proof {
            assert(self.timestamps@.take(n as int) =~= self.timestamps@);
        }
        self.timestamps = kept;
        if self.timestamps.len() >= self.max_ops as usize {
            return false;
        }
        self.timestamps.push(now);
        true
    }

    /// Attempts an acquisition now, on the monotonic clock. The reading of
    /// the clock is not known: the outcome is that of `try_acquire_at` at
    /// some reading.
    pub fn try_acquire(&mut self) -> (granted: bool)
        ensures
            final(self).limit() == old(self).limit(),
            exists|now: u128|
                granted == acquire_granted(old(self).limit(), old(self).stamps(), now)
                    && final(self).stamps() == acquire_state(
                    old(self).limit(),
                    old(self).stamps(),
                    now,
                ),
    {
        let now = nanos_since(&self.epoch);
        self.try_acquire_at(now)
    }
}

/// The stamps a fresh throttle holds after attempts at the clock readings
/// `times`, in that order.
pub open spec fn stamps_after(max_ops: u32, times: Seq<u128>) -> Seq<u128>
    decreases times.len(),
{
    if times.len() == 0 {
        Seq::empty()
    } else {
        acquire_state(max_ops, stamps_after(max_ops, times.drop_last()), times.last())
    }
}

/// The readings, among `times`, at which a fresh throttle granted the
/// attempt, in order.
pub open spec fn granted_readings(max_ops: u32, times: Seq<u128>) -> Seq<u128>
    decreases times.len(),
{
    if times.len() == 0 {
        Seq::empty()
    } else {
        let before = granted_readings(max_ops, times.drop_last());
        if acquire_granted(max_ops, stamps_after(max_ops, times.drop_last()), times.last()) {
            before.push(times.last())
        } else {
            before
        }
    }
}

/// Clock readings that never go backwards.
pub open spec fn nondecreasing(times: Seq<u128>) -> bool {
    forall|i: int, j: int| 0 <= i <= j < times.len() ==> times[i] <= times[j]
}

/// Whether reading `t` falls in the one-second window that opens at `start`.
pub open spec fn in_second_from(start: int, t: u128) -> bool {
    start <= t < start + WINDOW_NANOS
}

/// Filtering by a weaker predicate keeps at least as many elements.
proof fn lemma_filter_len_mono(s: Seq<u128>, p: spec_fn(u128) -> bool, q: spec_fn(u128) -> bool)
    requires
        forall|i: int| 0 <= i < s.len() && #[trigger] p(s[i]) ==> q(s[i]),
    ensures
        s.filter(p).len() <= s.filter(q).len(),
    decreases s.len(),
{
    if s.len() > 0 {
        let init = s.drop_last();
        assert forall|i: int| 0 <= i < init.len() && #[trigger] p(init[i]) implies q(init[i]) by {
            assert(init[i] == s[i]);
        }
        lemma_filter_len_mono(init, p, q);
        assert(s =~= init.push(s.last()));
        init.lemma_filter_push(s.last(), p);
        init.lemma_filter_push(s.last(), q);
    }
}

/// Every granted reading is at most the latest reading.
proof fn lemma_granted_bounded(max_ops: u32, times: Seq<u128>)
    requires
        times.len() > 0,
        nondecreasing(times),
    ensures
        forall|i: int|
            0 <= i < granted_readings(max_ops, times).len() ==> #[trigger] granted_readings(
                max_ops,
                times,
            )[i] <= times.last(),
    decreases times.len(),
{
    let init = times.drop_last();
    let before = granted_readings(max_ops, init);
    let all = granted_readings(max_ops, times);
    if init.len() > 0 {
        assert(nondecreasing(init));
        lemma_granted_bounded(max_ops, init);
        assert(init.last() <= times.last());
    }
    assert forall|i: int| 0 <= i < all.len() implies #[trigger] all[i] <= times.last() by {
        if i < before.len() {
            assert(all[i] == before[i]);
            assert(before[i] <= init.last());
        }
    }
}

/// For stamps no later than `x`, the ones live at `now >= x` are the live
/// ones at `x` that are still live at `now`.
proof fn lemma_live_twice(s: Seq<u128>, x: u128, now: u128)
    requires
        x <= now,
        forall|i: int| 0 <= i < s.len() ==> #[trigger] s[i] <= x,
    ensures
        live_stamps(live_stamps(s, x), now) == live_stamps(s, now),
    decreases s.len(),
{
    if s.len() > 0 {
        let init = s.drop_last();
        let y = s.last();
        assert forall|i: int| 0 <= i < init.len() implies #[trigger] init[i] <= x by {
            assert(init[i] == s[i]);
        }
        lemma_live_twice(init, x, now);
        assert(s =~= init.push(y));
        init.lemma_filter_push(y, |t: u128| in_window(x, t));
        init.lemma_filter_push(y, |t: u128| in_window(now, t));
        live_stamps(init, x).lemma_filter_push(y, |t: u128| in_window(now, t));
    }
}

/// What a throttle remembers is its granted history: fed readings that
/// never go backwards, the stamps it holds that are live at any reading no
/// earlier than the latest are exactly the granted readings within the
/// second before it. So an attempt is granted if and only if fewer than the
/// limit of the granted readings lie within the last second.
pub proof fn lemma_stamps_are_granted(max_ops: u32, times: Seq<u128>, now: u128)
    requires
        nondecreasing(times),
        times.len() > 0 ==> times.last() <= now,
    ensures
        live_stamps(stamps_after(max_ops, times), now) == live_stamps(
            granted_readings(max_ops, times),
            now,
        ),
    decreases times.len(),
{
    if times.len() > 0 {
        let init = times.drop_last();
        let x = times.last();
        assert(nondecreasing(init));
        if init.len() > 0 {
            assert(init.last() <= x);
        }
        lemma_stamps_are_granted(max_ops, init, x);
        lemma_stamps_are_granted(max_ops, init, now);
        let g = granted_readings(max_ops, init);
        let st = stamps_after(max_ops, init);
        let k = live_stamps(st, x);
        if init.len() > 0 {
            lemma_granted_bounded(max_ops, init);
            assert forall|i: int| 0 <= i < g.len() implies #[trigger] g[i] <= x by {
                assert(g[i] <= init.last());
            }
        }
        lemma_live_twice(g, x, now);
        if acquire_granted(max_ops, st, x) {
            k.lemma_filter_push(x, |t: u128| in_window(now, t));
            g.lemma_filter_push(x, |t: u128| in_window(now, t));
        }
    }
}

/// The per-call rule of a throttle fed readings that never go backwards:
/// an attempt at `now` is granted if and only if fewer than the limit of
/// the readings granted so far lie within the second before `now`.
pub proof fn lemma_grant_rule(max_ops: u32, times: Seq<u128>, now: u128)
    requires
        nondecreasing(times),
        times.len() > 0 ==> times.last() <= now,
    ensures
        acquire_granted(max_ops, stamps_after(max_ops, times), now) <==> live_stamps(
            granted_readings(max_ops, times),
            now,
        ).len() < max_ops,
{
    lemma_stamps_are_granted(max_ops, times, now);
}

/// The throttle's promise: fed clock readings that never go backwards, a
/// throttle grants at most `max_ops` acquisitions stamped within any one
/// second.
pub proof fn lemma_at_most_limit_per_second(max_ops: u32, times: Seq<u128>, start: int)
    requires
        nondecreasing(times),
    ensures
        granted_readings(max_ops, times).filter(|t: u128| in_second_from(start, t)).len()
            <= max_ops,
    decreases times.len(),
{
    let win = |t: u128| in_second_from(start, t);
    if times.len() > 0 {
        let init = times.drop_last();
        let x = times.last();
        assert(nondecreasing(init));
        lemma_at_most_limit_per_second(max_ops, init, start);
        let g = granted_readings(max_ops, init);
        let st = stamps_after(max_ops, init);
        if acquire_granted(max_ops, st, x) {
            g.lemma_filter_push(x, win);
            if in_second_from(start, x) {
                if init.len() > 0 {
                    assert(init.last() <= x);
                    lemma_granted_bounded(max_ops, init);
                }
                lemma_stamps_are_granted(max_ops, init, x);
                assert forall|i: int| 0 <= i < g.len() && #[trigger] win(g[i]) implies in_window(
                    x,
                    g[i],
                ) by {
                    assert(g[i] <= init.last());
                }
                lemma_filter_len_mono(g, win, |t: u128| in_window(x, t));
            }
        }
    }
}

/// The throttle remembers at most `max_ops` stamps, whatever the readings.
pub proof fn lemma_memory_bounded(max_ops: u32, times: Seq<u128>)
    ensures
        stamps_after(max_ops, times).len() <= max_ops,
    decreases times.len(),
{
    if times.len() > 0 {
        lemma_memory_bounded(max_ops, times.drop_last());
    }
}

} // verus!

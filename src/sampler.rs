//! The start-once sampler with an absolute tick schedule.

use vstd::prelude::*;
use crate::price::PricePoint;

verus! {

/// What a sampler holds, as plain values.
pub struct SamplerView {
    pub running: bool,
    pub origin: i64,
    pub period: u64,
    pub ticks: u64,
}

impl SamplerView {
    /// The time of tick `k` on the schedule: `origin + k * period`.
    pub open spec fn tick_time(self, k: int) -> int {
        self.origin + k * self.period
    }

    /// Whether the next tick can still be taken: running, with a tick time
    /// that fits an `i64` and a tick count that can grow.
    pub open spec fn can_tick(self) -> bool {
        &&& self.running
        &&& self.tick_time(self.ticks as int) <= i64::MAX
        &&& self.ticks < u64::MAX
    }

    /// The state after `start(now)`: only the first start has effect.
    pub open spec fn after_start(self, now: i64) -> SamplerView {
        if self.running {
            self
        } else {
            SamplerView { running: true, origin: now, period: self.period, ticks: 0 }
        }
    }

    /// Whether the next tick is due at time `now`.
    pub open spec fn due_at(self, now: i64) -> bool {
        self.can_tick() && self.tick_time(self.ticks as int) <= now
    }

    /// The state after a tick attempt at time `now`: the schedule advances
    /// only when the tick is due.
    pub open spec fn ticked(self, now: i64) -> SamplerView {
        if self.due_at(now) {
            SamplerView { ticks: (self.ticks + 1) as u64, ..self }
        } else {
            self
        }
    }

    /// The point a tick attempt at time `now` publishes, given what the value
    /// source returned: stamped with `now`, the time the value was read.
    pub open spec fn tick_output(self, fetched: Option<u64>, now: i64) -> Option<PricePoint> {
        if self.due_at(now) {
            match fetched {
                Some(v) => Some(PricePoint { price: v, time: now }),
                None => None,
            }
        } else {
            None
        }
    }
}

/// Produces a sample every `period` nanoseconds once started; it starts at
/// most once and never stops.
pub struct SamplerScheduler {
    running: bool,
    origin: i64,
    period: u64,
    ticks: u64,
}

impl View for SamplerScheduler {
    type V = SamplerView;

    closed spec fn view(&self) -> SamplerView {
        SamplerView { running: self.running, origin: self.origin, period: self.period, ticks: self.ticks }
    }
}

impl SamplerScheduler {
    /// A stopped sampler with the given period in nanoseconds.
    pub fn new(period: u64) -> (r: SamplerScheduler)
        ensures
            r@ == (SamplerView { running: false, origin: 0, period, ticks: 0 }),
    {
        SamplerScheduler { running: false, origin: 0, period, ticks: 0 }
    }

    pub fn is_running(&self) -> (r: bool)
        ensures
            r == self@.running,
    {
        self.running
    }

    pub fn period(&self) -> (r: u64)
        ensures
            r == self@.period,
    {
        self.period
    }

    /// Starts the schedule with tick zero at `now`; returns whether this
    /// call started it. Later calls change nothing.
    pub fn start(&mut self, now: i64) -> (r: bool)
        ensures
            r == !old(self)@.running,
            final(self)@ == old(self)@.after_start(now),
            final(self)@.running,
    {
        if self.running {
            false
        } else {
            self.running = true;
            self.origin = now;
            self.ticks = 0;
            true
        }
    }

    /// The time at which the next tick is due, if there is one.
    pub fn next_tick_time(&self) -> (r: Option<i64>)
        ensures
            r == (if self@.can_tick() { Some(self@.tick_time(self@.ticks as int) as i64) } else { None::<i64> }),
    {
        if !self.running || self.ticks == u64::MAX {
            return None;
        }
        assert((self.ticks as u128) * (self.period as u128) <= u64::MAX * u64::MAX) by (nonlinear_arith)
            requires
                self.ticks <= u64::MAX,
                self.period <= u64::MAX,
        ;
        let off: u128 = (self.ticks as u128) * (self.period as u128);
        if off > (u64::MAX as u128) {
            return None;
        }
        let t: i128 = self.origin as i128 + off as i128;
        if t > (i64::MAX as i128) {
            None
        } else {
            Some(t as i64)
        }
    }

    /// Takes the tick if it is due at `now`, the time at which the value
    /// source was read: advances the schedule and returns the point to
    /// publish, or none when the value source failed on this tick. Before
    /// the tick is due nothing changes.
    pub fn on_tick(&mut self, fetched: Option<u64>, now: i64) -> (r: Option<PricePoint>)
        ensures
            final(self)@ == old(self)@.ticked(now),
            r == old(self)@.tick_output(fetched, now),
            r is Some ==> r->0.time == now,
    {
        match self.next_tick_time() {
            None => None,
            Some(t) => {
                if now < t {
                    return None;
                }
                self.ticks = self.ticks + 1;
                match fetched {
                    Some(v) => Some(PricePoint { price: v, time: now }),
                    None => None,
                }
            },
        }
    }
}

/// The samples a run of tick attempts publishes, given what the value source
/// returned on each and the time at which each was made.
pub open spec fn samples(s: SamplerView, fetched: Seq<Option<u64>>, nows: Seq<i64>) -> Seq<PricePoint>
    decreases fetched.len(),
{
    if fetched.len() == 0 || nows.len() == 0 {
        Seq::empty()
    } else {
        let now = match s.tick_output(fetched[0], nows[0]) {
            Some(pt) => seq![pt],
            None => Seq::empty(),
        };
        now + samples(s.ticked(nows[0]), fetched.drop_first(), nows.drop_first())
    }
}

/// Over a run of `n` ticks on which the value source answers every time,
/// tick `i` being taken at `nows[i]`, no earlier than its due time
/// `origin + (ticks + i) * period` and at most `tol` later, sample `i` is
/// stamped with `nows[i]`: within `tol` of its due time, and within `tol`
/// of `period` after the sample before it. The bound does not grow with
/// the run, so the schedule does not drift.
pub proof fn lemma_samples_follow_schedule(
    s: SamplerView,
    fetched: Seq<Option<u64>>,
    nows: Seq<i64>,
    tol: int,
)
    requires
        s.running,
        nows.len() == fetched.len(),
        forall|i: int| 0 <= i < fetched.len() ==> (#[trigger] fetched[i]) is Some,
        forall|i: int| 0 <= i < nows.len() ==> s.tick_time(s.ticks + i) <= #[trigger] nows[i]
            && nows[i] <= s.tick_time(s.ticks + i) + tol,
        s.ticks + fetched.len() <= u64::MAX,
    ensures
        samples(s, fetched, nows).len() == fetched.len(),
        forall|i: int| 0 <= i < fetched.len() ==> (#[trigger] samples(s, fetched, nows)[i]).time
            == nows[i],
        forall|i: int| 0 <= i < fetched.len() ==> (#[trigger] samples(s, fetched, nows)[i]).price
            == fetched[i]->0,
        forall|i: int| 0 <= i < fetched.len() ==> 0 <= (#[trigger] samples(s, fetched, nows)[i]).time
            - s.tick_time(s.ticks + i) <= tol,
        forall|i: int| 0 <= i && i + 1 < fetched.len() ==> s.period - tol <= samples(s, fetched, nows)[i + 1].time
            - (#[trigger] samples(s, fetched, nows)[i]).time <= s.period + tol,
    decreases fetched.len(),
{
    if fetched.len() > 0 {
        let rest = fetched.drop_first();
        let rest_nows = nows.drop_first();
        assert(s.tick_time(s.ticks as int) <= nows[0]);
        assert(s.can_tick());
        assert(s.due_at(nows[0]));
        let first = s.tick_output(fetched[0], nows[0]);
        let t = s.ticked(nows[0]);
        assert forall|i: int| 0 <= i < rest.len() implies (#[trigger] rest[i]) is Some by {
            assert(rest[i] == fetched[i + 1]);
        }
        assert forall|i: int| 0 <= i < rest_nows.len() implies t.tick_time(t.ticks + i) <= #[trigger] rest_nows[i]
            && rest_nows[i] <= t.tick_time(t.ticks + i) + tol by {
            assert(rest_nows[i] == nows[i + 1]);
            assert(t.ticks + i == s.ticks + (i + 1));
        }
        lemma_samples_follow_schedule(t, rest, rest_nows, tol);
        let all = samples(s, fetched, nows);
        assert(all == seq![first->0] + samples(t, rest, rest_nows));
        assert forall|i: int| 0 <= i < fetched.len() implies (#[trigger] all[i]).time == nows[i]
            && all[i].price == fetched[i]->0 by {
            if i > 0 {
                assert(all[i] == samples(t, rest, rest_nows)[i - 1]);
                assert(rest[i - 1] == fetched[i]);
                assert(rest_nows[i - 1] == nows[i]);
            }
        }
        assert forall|i: int| 0 <= i && i + 1 < fetched.len() implies s.period - tol <= all[i + 1].time
            - (#[trigger] all[i]).time <= s.period + tol by {
            assert(all[i + 1].time == nows[i + 1]);
            assert(all[i].time == nows[i]);
            assert(s.tick_time(s.ticks + i + 1) - s.tick_time(s.ticks + i) == s.period) by (nonlinear_arith);
        }
    }
}

} // verus!

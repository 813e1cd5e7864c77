//! The whole pipeline as one state machine: feed items and ticks go in,
//! sampler starts and published samples come out.

use vstd::prelude::*;
use crate::event::ExternalEvent;
use crate::hub::{BroadcastHub, HubView};
use crate::price::{fetch_current_price, PricePoint, PRICE_BOUND_CENTS};
use crate::sampler::{SamplerScheduler, SamplerView};
use crate::trigger::{TriggerCondition, TriggerWatcher};

verus! {

/// What a station holds: the condition, whether it has fired, the sampler
/// and the hub.
pub struct StationView {
    pub condition: TriggerCondition,
    pub fired: bool,
    pub sampler: SamplerView,
    pub hub: HubView,
}

/// One input to the pipeline: a feed item seen at a time, or a tick attempt
/// with what the value source returned and the time it was read.
pub enum StationInput {
    Feed(ExternalEvent, i64),
    Tick(Option<u64>, i64),
}

impl StationView {
    pub open spec fn wf(self) -> bool {
        &&& self.hub.wf()
        &&& self.fired == self.sampler.running
    }

    /// Whether feed item `ev` fires the trigger now.
    pub open spec fn fires_on(self, ev: ExternalEvent) -> bool {
        !self.fired && self.condition.holds(ev)
    }

    /// The state after feed item `ev` arrives at time `now`.
    pub open spec fn after_feed(self, ev: ExternalEvent, now: i64) -> StationView {
        if self.fires_on(ev) {
            StationView { fired: true, sampler: self.sampler.after_start(now), ..self }
        } else {
            self
        }
    }

    /// The state after a tick attempt at `now` on which the value source
    /// returned `fetched`.
    pub open spec fn after_tick(self, fetched: Option<u64>, now: i64) -> StationView {
        StationView {
            sampler: self.sampler.ticked(now),
            hub: match self.sampler.tick_output(fetched, now) {
                Some(pt) => self.hub.published(pt),
                None => self.hub,
            },
            ..self
        }
    }

    pub open spec fn after(self, input: StationInput) -> StationView {
        match input {
            StationInput::Feed(ev, now) => self.after_feed(ev, now),
            StationInput::Tick(fetched, now) => self.after_tick(fetched, now),
        }
    }

    /// The state after a run of inputs, in order.
    pub open spec fn run(self, inputs: Seq<StationInput>) -> StationView
        decreases inputs.len(),
    {
        if inputs.len() == 0 {
            self
        } else {
            self.after(inputs[0]).run(inputs.drop_first())
        }
    }

    /// How many inputs of a run start the sampler.
    pub open spec fn starts(self, inputs: Seq<StationInput>) -> nat
        decreases inputs.len(),
    {
        if inputs.len() == 0 {
            0
        } else {
            let now = match inputs[0] {
                StationInput::Feed(ev, _) => if self.fires_on(ev) { 1nat } else { 0nat },
                StationInput::Tick(_, _) => 0nat,
            };
            now + self.after(inputs[0]).starts(inputs.drop_first())
        }
    }

    /// The samples a run publishes, in order.
    pub open spec fn published(self, inputs: Seq<StationInput>) -> Seq<PricePoint>
        decreases inputs.len(),
    {
        if inputs.len() == 0 {
            Seq::empty()
        } else {
            let now = match inputs[0] {
                StationInput::Tick(fetched, now) => match self.sampler.tick_output(fetched, now) {
                    Some(pt) => seq![pt],
                    None => Seq::empty(),
                },
                StationInput::Feed(_, _) => Seq::empty(),
            };
            now + self.after(inputs[0]).published(inputs.drop_first())
        }
    }
}

/// Whether no feed item of a run meets `condition`.
pub open spec fn no_match(condition: TriggerCondition, inputs: Seq<StationInput>) -> bool {
    forall|i: int| 0 <= i < inputs.len() ==> match #[trigger] inputs[i] {
        StationInput::Feed(ev, _) => !condition.holds(ev),
        StationInput::Tick(_, _) => true,
    }
}

/// A run in which no feed item matches leaves an idle station as it was:
/// the sampler never starts and nothing is published.
pub proof fn lemma_no_match_stays_idle(v: StationView, inputs: Seq<StationInput>)
    requires
        !v.fired,
        !v.sampler.running,
        no_match(v.condition, inputs),
    ensures
        v.run(inputs) == v,
        v.starts(inputs) == 0,
        v.published(inputs) == Seq::<PricePoint>::empty(),
    decreases inputs.len(),
{
    if inputs.len() > 0 {
        let rest = inputs.drop_first();
        assert(v.after(inputs[0]) == v);
        assert forall|i: int| 0 <= i < rest.len() implies match #[trigger] rest[i] {
            StationInput::Feed(ev, _) => !v.condition.holds(ev),
            StationInput::Tick(_, _) => true,
        } by {
            assert(rest[i] == inputs[i + 1]);
        }
        lemma_no_match_stays_idle(v, rest);
        assert(v.published(inputs) =~= Seq::<PricePoint>::empty());
    }
}

/// Once fired, a station never fires again.
pub proof fn lemma_fired_never_fires_again(v: StationView, inputs: Seq<StationInput>)
    requires
        v.fired,
    ensures
        v.starts(inputs) == 0,
        v.run(inputs).fired,
    decreases inputs.len(),
{
    if inputs.len() > 0 {
        lemma_fired_never_fires_again(v.after(inputs[0]), inputs.drop_first());
    }
}

/// The trigger fires at most once over any run, however many feed items
/// meet the condition.
pub proof fn lemma_fires_at_most_once(v: StationView, inputs: Seq<StationInput>)
    ensures
        v.starts(inputs) <= 1,
    decreases inputs.len(),
{
    if inputs.len() > 0 {
        let next = v.after(inputs[0]);
        if next.fired {
            lemma_fired_never_fires_again(next, inputs.drop_first());
        } else {
            lemma_fires_at_most_once(next, inputs.drop_first());
        }
    }
}

/// Relies on chrono's `From<SystemTime> for DateTime<Utc>`, applied to
/// `SystemTime::now()` (clock readings before 1970 are taken as negative
/// offsets), read as nanoseconds since the epoch with `timestamp_nanos_opt`:
/// none when the reading lies outside the years 1677 to 2262 that an `i64`
/// of nanoseconds covers.
#[verifier::external_body]
fn now_nanos() -> (r: Option<i64>) {
    chrono::DateTime::<chrono::Utc>::from(std::time::SystemTime::now()).timestamp_nanos_opt()
}

/// The pipeline: a trigger watcher, the sampler it starts, and the hub the
/// samples go to.
pub struct Station {
    watcher: TriggerWatcher,
    sampler: SamplerScheduler,
    hub: BroadcastHub,
}

impl View for Station {
    type V = StationView;

    closed spec fn view(&self) -> StationView {
        StationView {
            condition: self.watcher.condition(),
            fired: self.watcher.has_fired(),
            sampler: self.sampler@,
            hub: self.hub@,
        }
    }
}

impl Station {
    pub closed spec fn wf(&self) -> bool {
        &&& self.hub.wf()
        &&& self.watcher.has_fired() == self.sampler@.running
    }

    /// A well-formed station has a well-formed view.
    pub proof fn lemma_view_wf(&self)
        requires
            self.wf(),
        ensures
            self@.wf(),
    {
        self.hub.lemma_view_wf();
    }

    /// An idle station: not fired, sampler stopped, no subscribers.
    pub fn new(condition: TriggerCondition, period: u64, capacity: usize) -> (r: Station)
        requires
            capacity >= 1,
        ensures
            r.wf(),
            r@ == (StationView {
                condition,
                fired: false,
                sampler: SamplerView { running: false, origin: 0, period, ticks: 0 },
                hub: HubView { inboxes: Map::empty(), next_id: 0, capacity: capacity as nat },
            }),
    {
        Station {
            watcher: TriggerWatcher::new(condition),
            sampler: SamplerScheduler::new(period),
            hub: BroadcastHub::new(capacity),
        }
    }

    /// Whether the sampler has been started.
    pub fn is_sampling(&self) -> (r: bool)
        ensures
            r == self@.sampler.running,
    {
        self.sampler.is_running()
    }

    /// Hands a feed item seen at `now` to the watcher; returns true exactly
    /// when it fires, and then starts the sampler with tick zero at `now`.
    pub fn on_feed(&mut self, ev: &ExternalEvent, now: i64) -> (r: bool)
        requires
            old(self).wf(),
        ensures
            final(self).wf(),
            r == old(self)@.fires_on(*ev),
            final(self)@ == old(self)@.after_feed(*ev, now),
    {
        let fire = self.watcher.observe(ev);
        if fire {
            self.sampler.start(now);
        }
        fire
    }

    /// Like `on_feed`, at the current time of the system clock. When the
    /// clock cannot be read as an `i64` of nanoseconds, the item is left
    /// unread and `None` comes back.
    pub fn on_feed_now(&mut self, ev: &ExternalEvent) -> (r: Option<bool>)
        requires
            old(self).wf(),
        ensures
            final(self).wf(),
            r is None ==> final(self)@ == old(self)@,
            r is Some ==> r->0 == old(self)@.fires_on(*ev)
                && exists|now: i64| final(self)@ == old(self)@.after_feed(*ev, now),
    {
        match now_nanos() {
            Some(now) => Some(self.on_feed(ev, now)),
            None => None,
        }
    }

    /// When the next tick is due, if the sampler runs.
    pub fn next_tick_time(&self) -> (r: Option<i64>)
        ensures
            r == (if self@.sampler.can_tick() {
                Some(self@.sampler.tick_time(self@.sampler.ticks as int) as i64)
            } else {
                None::<i64>
            }),
    {
        self.sampler.next_tick_time()
    }

    /// Takes the tick if it is due at `now`, with what the value source
    /// returned when read at `now`, and publishes the resulting sample,
    /// stamped with `now`, to every subscriber.
    pub fn on_tick(&mut self, fetched: Option<u64>, now: i64) -> (r: Option<PricePoint>)
        requires
            old(self).wf(),
        ensures
            final(self).wf(),
            r == old(self)@.sampler.tick_output(fetched, now),
            r is Some ==> r->0.time == now,
            final(self)@ == old(self)@.after_tick(fetched, now),
    {
        let out = self.sampler.on_tick(fetched, now);
        match out {
            Some(pt) => {
                self.hub.publish(pt);
            },
            None => {},
        }
        out
    }

    /// Reads the simulated price source and the system clock, and takes the
    /// tick if it is due at that reading. When the clock cannot be read as
    /// an `i64` of nanoseconds, nothing changes and none comes back.
    pub fn tick_now(&mut self) -> (r: Option<PricePoint>)
        requires
            old(self).wf(),
        ensures
            final(self).wf(),
            final(self)@ == old(self)@ || exists|v: u64, now: i64| v < PRICE_BOUND_CENTS
                && r == old(self)@.sampler.tick_output(Some(v), now)
                && final(self)@ == old(self)@.after_tick(Some(v), now),
            final(self)@ == old(self)@ ==> r is None,
    {
        let v = fetch_current_price();
        match now_nanos() {
            Some(now) => self.on_tick(Some(v), now),
            None => None,
        }
    }

    /// Registers a subscriber; see `BroadcastHub::register`.
    pub fn register(&mut self) -> (r: Option<u64>)
        requires
            old(self).wf(),
        ensures
            final(self).wf(),
            final(self)@ == (StationView { hub: old(self)@.hub.registered(), ..old(self)@ }),
            r == (if old(self)@.hub.can_register() { Some(old(self)@.hub.next_id) } else { None::<u64> }),
    {
        self.hub.register()
    }

    /// Removes a subscriber; see `BroadcastHub::unregister`.
    pub fn unregister(&mut self, id: u64) -> (r: bool)
        requires
            old(self).wf(),
        ensures
            final(self).wf(),
            final(self)@ == (StationView { hub: old(self)@.hub.unregistered(id), ..old(self)@ }),
            r == old(self)@.hub.inboxes.contains_key(id),
    {
        self.hub.unregister(id)
    }

    /// Empties a subscriber's inbox; see `BroadcastHub::take_inbox`.
    pub fn take_inbox(&mut self, id: u64) -> (r: Option<Vec<PricePoint>>)
        requires
            old(self).wf(),
        ensures
            final(self).wf(),
            final(self)@ == (StationView { hub: old(self)@.hub.drained(id), ..old(self)@ }),
            r is Some == old(self)@.hub.inboxes.contains_key(id),
            r is Some ==> r->0@ == old(self)@.hub.inboxes[id],
    {
        self.hub.take_inbox(id)
    }
}

} // verus!

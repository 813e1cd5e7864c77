//! The registry of subscribers and the fan-out of samples to them.

use vstd::prelude::*;
use std::collections::VecDeque;
use crate::price::PricePoint;

verus! {

/// An inbox after `p` arrives: drop-oldest once `cap` items are waiting.
pub open spec fn enqueue(q: Seq<PricePoint>, p: PricePoint, cap: nat) -> Seq<PricePoint> {
    if q.len() < cap {
        q.push(p)
    } else {
        q.drop_first().push(p)
    }
}

/// What a hub holds: each registered subscriber's id and waiting samples,
/// the id the next subscriber gets, and the bound on each inbox.
pub struct HubView {
    pub inboxes: Map<u64, Seq<PricePoint>>,
    pub next_id: u64,
    pub capacity: nat,
}

impl HubView {
    pub open spec fn wf(self) -> bool {
        &&& self.capacity >= 1
        &&& forall|id: u64| #[trigger] self.inboxes.contains_key(id)
            ==> id < self.next_id && self.inboxes[id].len() <= self.capacity
    }

    /// Whether another subscriber can still get a fresh id.
    pub open spec fn can_register(self) -> bool {
        self.next_id < u64::MAX
    }

    /// The hub after a registration: a fresh id with an empty inbox.
    pub open spec fn registered(self) -> HubView {
        if self.can_register() {
            HubView {
                inboxes: self.inboxes.insert(self.next_id, Seq::empty()),
                next_id: (self.next_id + 1) as u64,
                capacity: self.capacity,
            }
        } else {
            self
        }
    }

    /// The hub after `id` is removed; nothing changes if it is absent.
    pub open spec fn unregistered(self, id: u64) -> HubView {
        HubView { inboxes: self.inboxes.remove(id), ..self }
    }

    /// The hub after `p` is published: every registered inbox gets it once.
    pub open spec fn published(self, p: PricePoint) -> HubView {
        HubView {
            inboxes: Map::new(
                |id: u64| self.inboxes.contains_key(id),
                |id: u64| enqueue(self.inboxes[id], p, self.capacity),
            ),
            ..self
        }
    }

    /// The hub after the inbox of `id` is emptied by its reader.
    pub open spec fn drained(self, id: u64) -> HubView {
        if self.inboxes.contains_key(id) {
            HubView { inboxes: self.inboxes.insert(id, Seq::empty()), ..self }
        } else {
            self
        }
    }
}

struct Subscriber {
    id: u64,
    inbox: VecDeque<PricePoint>,
}

/// The process-wide registry of subscribers, each with a bounded inbox of
/// its own; `publish` copies a sample into every one of them.
pub struct BroadcastHub {
    subs: Vec<Subscriber>,
    next_id: u64,
    capacity: usize,
    registry: Ghost<Map<u64, Seq<PricePoint>>>,
}

impl View for BroadcastHub {
    type V = HubView;

    closed spec fn view(&self) -> HubView {
        HubView { inboxes: self.registry@, next_id: self.next_id, capacity: self.capacity as nat }
    }
}

impl BroadcastHub {
    /// The link between the subscriber list and the registry it stands for.
    pub closed spec fn wf(&self) -> bool {
        &&& self.capacity >= 1
        &&& forall|id: u64| #[trigger] self.registry@.contains_key(id)
            ==> id < self.next_id && self.registry@[id].len() <= self.capacity
        &&& forall|i: int| 0 <= i < self.subs@.len() ==> {
            &&& #[trigger] self.registry@.contains_key(self.subs@[i].id)
            &&& self.registry@[self.subs@[i].id] == self.subs@[i].inbox@
        }
        &&& forall|i: int, j: int|
            0 <= i < self.subs@.len() && 0 <= j < self.subs@.len() && i != j
                ==> #[trigger] self.subs@[i].id != #[trigger] self.subs@[j].id
        &&& forall|id: u64| #[trigger] self.registry@.contains_key(id)
            ==> exists|i: int| 0 <= i < self.subs@.len() && self.subs@[i].id == id
    }

    /// A well-formed hub has a well-formed view.
    pub proof fn lemma_view_wf(&self)
        requires
            self.wf(),
        ensures
            self@.wf(),
    {
    }

    /// An empty hub whose inboxes hold at most `capacity` samples each.
    pub fn new(capacity: usize) -> (r: BroadcastHub)
        requires
            capacity >= 1,
        ensures
            r.wf(),
            r@ == (HubView { inboxes: Map::empty(), next_id: 0, capacity: capacity as nat }),
    {
        BroadcastHub { subs: Vec::new(), next_id: 0, capacity, registry: Ghost(Map::empty()) }
    }

    fn find(&self, id: u64) -> (r: Option<usize>)
        requires
            self.wf(),
        ensures
            match r {
                Some(i) => i < self.subs@.len() && self.subs@[i as int].id == id,
                None => !self@.inboxes.contains_key(id),
            },
    {
        let mut i: usize = 0;
        while i < self.subs.len()
            invariant
                self.wf(),
                i <= self.subs@.len(),
                forall|j: int| 0 <= j < i ==> self.subs@[j].id != id,
            decreases self.subs@.len() - i,
        {
            if self.subs[i].id == id {
                return Some(i);
            }
            i = i + 1;
        }
        None
    }

    /// Whether `id` is currently registered.
    pub fn is_registered(&self, id: u64) -> (r: bool)
        requires
            self.wf(),
        ensures
            r == self@.inboxes.contains_key(id),
    {
        self.find(id).is_some()
    }

    /// Adds a subscriber with an empty inbox under a fresh id and returns
    /// the id; none once the ids are used up.
    pub fn register(&mut self) -> (r: Option<u64>)
        requires
            old(self).wf(),
        ensures
            final(self).wf(),
            final(self)@ == old(self)@.registered(),
            r == (if old(self)@.can_register() { Some(old(self)@.next_id) } else { None::<u64> }),
            r is Some ==> !old(self)@.inboxes.contains_key(r->0),
    {
        if self.next_id == u64::MAX {
            return None;
        }
        let id = self.next_id;
        let ghost old_subs = self.subs@;
        let ghost old_reg = self.registry@;
        assert forall|i: int| 0 <= i < old_subs.len() implies #[trigger] old_subs[i].id < id by {
            assert(old_reg.contains_key(old_subs[i].id));
        }
        self.subs.push(Subscriber { id, inbox: VecDeque::new() });
        self.next_id = id + 1;
        self.registry = Ghost(self.registry@.insert(id, Seq::empty()));
        assert forall|k: u64| #[trigger] self.registry@.contains_key(k)
            implies k < self.next_id && self.registry@[k].len() <= self.capacity by {
            if k != id {
                assert(old_reg.contains_key(k));
            }
        }
        assert forall|i: int| 0 <= i < self.subs@.len() implies #[trigger] self.registry@.contains_key(self.subs@[i].id)
            && self.registry@[self.subs@[i].id] == self.subs@[i].inbox@ by {
            if i < old_subs.len() {
                assert(self.subs@[i] == old_subs[i]);
                assert(old_subs[i].id < id);
            }
        }
        assert forall|a: int, b: int|
            0 <= a < self.subs@.len() && 0 <= b < self.subs@.len() && a != b
                implies #[trigger] self.subs@[a].id != #[trigger] self.subs@[b].id by {
            if a < old_subs.len() {
                assert(self.subs@[a] == old_subs[a]);
                assert(old_subs[a].id < id);
            }
            if b < old_subs.len() {
                assert(self.subs@[b] == old_subs[b]);
                assert(old_subs[b].id < id);
            }
        }
        assert forall|k: u64| #[trigger] self.registry@.contains_key(k)
            implies exists|i: int| 0 <= i < self.subs@.len() && self.subs@[i].id == k by {
            if k == id {
                assert(self.subs@[old_subs.len() as int].id == k);
            } else {
                assert(old_reg.contains_key(k));
                let i = choose|i: int| 0 <= i < old_subs.len() && old_subs[i].id == k;
                assert(self.subs@[i] == old_subs[i]);
            }
        }
        Some(id)
    }

    /// Removes `id`; returns whether it was registered. Removing an absent
    /// id changes nothing.
    pub fn unregister(&mut self, id: u64) -> (r: bool)
        requires
            old(self).wf(),
        ensures
            final(self).wf(),
            final(self)@ == old(self)@.unregistered(id),
            r == old(self)@.inboxes.contains_key(id),
    {
        match self.find(id) {
            None => {
                assert(self.registry@.remove(id) =~= self.registry@);
                false
            },
            Some(i) => {
                let ghost old_subs = self.subs@;
                self.subs.remove(i);
                let ghost old_reg = self.registry@;
                self.registry = Ghost(self.registry@.remove(id));
                assert forall|k: u64| #[trigger] self.registry@.contains_key(k)
                    implies k < self.next_id && self.registry@[k].len() <= self.capacity by {
                    assert(old_reg.contains_key(k));
                }
                assert forall|a: int| 0 <= a < self.subs@.len() implies #[trigger] self.registry@.contains_key(self.subs@[a].id)
                    && self.registry@[self.subs@[a].id] == self.subs@[a].inbox@ by {
                    let oa = if a < i { a } else { a + 1 };
                    assert(self.subs@[a] == old_subs[oa]);
                    assert(old_subs[oa].id != old_subs[i as int].id);
                    assert(old_reg.contains_key(old_subs[oa].id));
                }
                assert forall|a: int, b: int|
                    0 <= a < self.subs@.len() && 0 <= b < self.subs@.len() && a != b
                        implies #[trigger] self.subs@[a].id != #[trigger] self.subs@[b].id by {
                    let oa = if a < i { a } else { a + 1 };
                    let ob = if b < i { b } else { b + 1 };
                    assert(self.subs@[a] == old_subs[oa]);
                    assert(self.subs@[b] == old_subs[ob]);
                }
                assert forall|k: u64| #[trigger] self.registry@.contains_key(k)
                    implies exists|a: int| 0 <= a < self.subs@.len() && self.subs@[a].id == k by {
                    assert(old_reg.contains_key(k));
                    let j = choose|j: int| 0 <= j < old_subs.len() && old_subs[j].id == k;
                    assert(j != i);
                    if j < i {
                        assert(self.subs@[j].id == k);
                    } else {
                        assert(self.subs@[j - 1].id == k);
                    }
                }
                true
            },
        }
    }

    /// Delivers `p` to every registered subscriber, once each; a full inbox
    /// drops its oldest sample to make room.
    pub fn publish(&mut self, p: PricePoint)
        requires
            old(self).wf(),
        ensures
            final(self).wf(),
            final(self)@ == old(self)@.published(p),
    {
        let ghost old_subs = self.subs@;
        let ghost old_reg = self.registry@;
        let ghost cap = self.capacity as nat;
        let n = self.subs.len();
        assert forall|j: int| 0 <= j < n implies #[trigger] old_subs[j].inbox@.len() <= cap by {
            assert(old_reg.contains_key(old_subs[j].id));
        }
        let mut i: usize = 0;
        while i < n
            invariant
                n == self.subs@.len(),
                n == old_subs.len(),
                i <= n,
                self.capacity == cap,
                self.next_id == old(self).next_id,
                self.registry == old(self).registry,
                cap >= 1,
                forall|j: int| 0 <= j < n ==> #[trigger] old_subs[j].inbox@.len() <= cap,
                forall|j: int| 0 <= j < i ==> {
                    &&& (#[trigger] self.subs@[j]).id == old_subs[j].id
                    &&& self.subs@[j].inbox@ == enqueue(old_subs[j].inbox@, p, cap)
                },
                forall|j: int| i <= j < n ==> #[trigger] self.subs@[j] == old_subs[j],
            decreases n - i,
        {
            let mut s = Subscriber { id: 0, inbox: VecDeque::new() };
            self.subs.set_and_swap(i, &mut s);
            if s.inbox.len() >= self.capacity {
                s.inbox.pop_front();
            }
            s.inbox.push_back(p);
            assert(s.inbox@ =~= enqueue(old_subs[i as int].inbox@, p, cap));
            self.subs.set_and_swap(i, &mut s);
            i = i + 1;
        }
        let ghost new_reg = Map::new(
            |id: u64| old_reg.contains_key(id),
            |id: u64| enqueue(old_reg[id], p, cap),
        );
        self.registry = Ghost(new_reg);
        assert forall|k: u64| #[trigger] self.registry@.contains_key(k)
            implies k < self.next_id && self.registry@[k].len() <= self.capacity by {
            assert(old_reg.contains_key(k));
            assert(self.registry@[k] == enqueue(old_reg[k], p, cap));
            assert(old_reg[k].len() <= cap);
        }
        assert forall|a: int| 0 <= a < self.subs@.len() implies #[trigger] self.registry@.contains_key(self.subs@[a].id)
            && self.registry@[self.subs@[a].id] == self.subs@[a].inbox@ by {
            assert(self.subs@[a].id == old_subs[a].id);
            assert(self.registry@[old_subs[a].id] == enqueue(old_reg[old_subs[a].id], p, cap));
            assert(old_reg.contains_key(old_subs[a].id));
        }
        assert forall|a: int, b: int|
            0 <= a < self.subs@.len() && 0 <= b < self.subs@.len() && a != b
                implies #[trigger] self.subs@[a].id != #[trigger] self.subs@[b].id by {
            assert(self.subs@[a].id == old_subs[a].id);
            assert(self.subs@[b].id == old_subs[b].id);
        }
        assert forall|k: u64| #[trigger] self.registry@.contains_key(k)
            implies exists|a: int| 0 <= a < self.subs@.len() && self.subs@[a].id == k by {
            assert(old_reg.contains_key(k));
            let j = choose|j: int| 0 <= j < old_subs.len() && old_subs[j].id == k;
            assert(self.subs@[j].id == k);
        }
    }

    /// Hands over every sample waiting for `id`, oldest first, and leaves its
    /// inbox empty; none when `id` is not registered.
    pub fn take_inbox(&mut self, id: u64) -> (r: Option<Vec<PricePoint>>)
        requires
            old(self).wf(),
        ensures
            final(self).wf(),
            final(self)@ == old(self)@.drained(id),
            r is Some == old(self)@.inboxes.contains_key(id),
            r is Some ==> r->0@ == old(self)@.inboxes[id],
    {
        match self.find(id) {
            None => None,
            Some(i) => {
                let ghost old_subs = self.subs@;
                let ghost old_reg = self.registry@;
                let mut s = Subscriber { id, inbox: VecDeque::new() };
                self.subs.set_and_swap(i, &mut s);
                let ghost waiting = s.inbox@;
                let mut out: Vec<PricePoint> = Vec::new();
                loop
                    invariant
                        out@ + s.inbox@ == waiting,
                        s.id == id,
                    ensures
                        out@ == waiting,
                        s.inbox@.len() == 0,
                    decreases s.inbox@.len(),
                {
                    match s.inbox.pop_front() {
                        Some(x) => {
                            out.push(x);
                            assert(out@ + s.inbox@ =~= waiting);
                        },
                                None => {
                            assert(out@ =~= waiting);
                            break;
                        },
                    }
                }
                assert(s.inbox@ =~= Seq::<PricePoint>::empty());
                self.subs.set_and_swap(i, &mut s);
                self.registry = Ghost(old_reg.insert(id, Seq::empty()));
                assert forall|k: u64| #[trigger] self.registry@.contains_key(k)
                    implies k < self.next_id && self.registry@[k].len() <= self.capacity by {
                    assert(old_reg.contains_key(k));
                }
                assert forall|a: int| 0 <= a < self.subs@.len() implies #[trigger] self.registry@.contains_key(self.subs@[a].id)
                    && self.registry@[self.subs@[a].id] == self.subs@[a].inbox@ by {
                    assert(old_reg.contains_key(old_subs[a].id));
                    if a != i {
                        assert(self.subs@[a] == old_subs[a]);
                        assert(old_subs[a].id != old_subs[i as int].id);
                    }
                }
                assert forall|a: int, b: int|
                    0 <= a < self.subs@.len() && 0 <= b < self.subs@.len() && a != b
                        implies #[trigger] self.subs@[a].id != #[trigger] self.subs@[b].id by {
                    assert(self.subs@[a].id == old_subs[a].id);
                    assert(self.subs@[b].id == old_subs[b].id);
                }
                assert forall|k: u64| #[trigger] self.registry@.contains_key(k)
                    implies exists|a: int| 0 <= a < self.subs@.len() && self.subs@[a].id == k by {
                    assert(old_reg.contains_key(k));
                    let j = choose|j: int| 0 <= j < old_subs.len() && old_subs[j].id == k;
                    assert(self.subs@[j].id == k);
                }
                Some(out)
            },
        }
    }
}

/// A published sample reaches every subscriber registered at the time, as
/// the newest item of its inbox and exactly once: what was waiting before
/// stays in order ahead of it (less the oldest item when the inbox was
/// full). The set of subscribers does not change.
pub proof fn lemma_publish_reaches_each_registered_once(h: HubView, p: PricePoint, id: u64)
    requires
        h.wf(),
        h.inboxes.contains_key(id),
    ensures
        h.published(p).inboxes.dom() == h.inboxes.dom(),
        h.published(p).inboxes[id].last() == p,
        h.published(p).inboxes[id].drop_last() == (if h.inboxes[id].len() < h.capacity {
            h.inboxes[id]
        } else {
            h.inboxes[id].drop_first()
        }),
        h.published(p).inboxes[id].len() <= h.capacity,
{
    assert(h.published(p).inboxes.dom() =~= h.inboxes.dom());
    let q = h.inboxes[id];
    if q.len() < h.capacity {
        assert(q.push(p).drop_last() =~= q);
    } else {
        assert(q.drop_first().push(p).drop_last() =~= q.drop_first());
    }
}

/// A subscriber that registers after a publish starts with an empty inbox
/// under an id the publish did not serve, so that sample never reaches it.
pub proof fn lemma_late_subscriber_misses_earlier_samples(h: HubView, p: PricePoint)
    requires
        h.wf(),
        h.can_register(),
    ensures
        !h.published(p).inboxes.contains_key(h.next_id),
        h.published(p).registered().inboxes[h.next_id] == Seq::<PricePoint>::empty(),
{
    assert(!h.inboxes.contains_key(h.next_id));
}

/// Removing a subscriber twice is the same as removing it once, and leaves
/// what every other subscriber receives from later publishes unchanged.
pub proof fn lemma_unregister_idempotent_and_isolated(h: HubView, id: u64, p: PricePoint, other: u64)
    requires
        h.wf(),
        other != id,
    ensures
        h.unregistered(id).unregistered(id) == h.unregistered(id),
        h.unregistered(id).published(p).inboxes.contains_key(other)
            == h.published(p).inboxes.contains_key(other),
        h.inboxes.contains_key(other) ==> h.unregistered(id).published(p).inboxes[other]
            == h.published(p).inboxes[other],
{
    assert(h.unregistered(id).unregistered(id).inboxes =~= h.unregistered(id).inboxes);
}

/// The newest `cap` items of `x` (all of them when there are fewer).
pub open spec fn keep_last(x: Seq<PricePoint>, cap: nat) -> Seq<PricePoint> {
    if x.len() <= cap {
        x
    } else {
        x.subrange(x.len() - cap, x.len() as int)
    }
}

/// The hub after publishing each of `ps`, in order.
pub open spec fn published_all(h: HubView, ps: Seq<PricePoint>) -> HubView
    decreases ps.len(),
{
    if ps.len() == 0 {
        h
    } else {
        published_all(h, ps.drop_last()).published(ps.last())
    }
}

proof fn lemma_enqueue_keeps_last(q: Seq<PricePoint>, p: PricePoint, cap: nat)
    requires
        cap >= 1,
        q.len() <= cap,
    ensures
        enqueue(q, p, cap) == keep_last(q.push(p), cap),
{
    if q.len() == cap {
        assert(q.drop_first().push(p) =~= q.push(p).subrange(1, q.len() + 1 as int));
    }
}

proof fn lemma_keep_last_push(x: Seq<PricePoint>, p: PricePoint, cap: nat)
    requires
        cap >= 1,
    ensures
        keep_last(keep_last(x, cap).push(p), cap) == keep_last(x.push(p), cap),
{
    assert(keep_last(keep_last(x, cap).push(p), cap) =~= keep_last(x.push(p), cap));
}

/// Publishing a run of samples leaves the set of subscribers as it was, and
/// a subscriber's inbox then holds the newest `capacity` items of what was
/// waiting followed by the run.
pub proof fn lemma_publish_run(h: HubView, ps: Seq<PricePoint>, id: u64)
    requires
        h.wf(),
    ensures
        published_all(h, ps).inboxes.dom() == h.inboxes.dom(),
        published_all(h, ps).capacity == h.capacity,
        published_all(h, ps).next_id == h.next_id,
        h.inboxes.contains_key(id) ==> published_all(h, ps).inboxes[id]
            == keep_last(h.inboxes[id] + ps, h.capacity),
    decreases ps.len(),
{
    if ps.len() > 0 {
        let init = ps.drop_last();
        lemma_publish_run(h, init, id);
        let g = published_all(h, init);
        assert(g.published(ps.last()).inboxes.dom() =~= g.inboxes.dom());
        if h.inboxes.contains_key(id) {
            let q = h.inboxes[id];
            assert(g.inboxes[id].len() <= h.capacity);
            lemma_enqueue_keeps_last(g.inboxes[id], ps.last(), h.capacity);
            lemma_keep_last_push(q + init, ps.last(), h.capacity);
            assert((q + init).push(ps.last()) =~= q + ps);
        }
    } else {
        if h.inboxes.contains_key(id) {
            assert(h.inboxes[id] + ps =~= h.inboxes[id]);
        }
    }
}

/// A subscriber that registers after some samples were published receives
/// only what is published from then on: its inbox holds the newest
/// `capacity` of the later samples and nothing else. A subscriber removed
/// before those publishes receives none of them.
pub proof fn lemma_late_subscriber_gets_only_later(h: HubView, gone: u64, later: Seq<PricePoint>)
    requires
        h.wf(),
        h.inboxes.contains_key(gone),
        h.can_register(),
    ensures
        ({
            let h1 = h.unregistered(gone).registered();
            let id = h.next_id;
            &&& id != gone
            &&& published_all(h1, later).inboxes[id] == keep_last(later, h.capacity)
            &&& !published_all(h1, later).inboxes.contains_key(gone)
        }),
{
    let h0 = h.unregistered(gone);
    let h1 = h0.registered();
    assert(h1.wf());
    assert(gone < h.next_id);
    assert(h1.inboxes.contains_key(h.next_id));
    assert(!h1.inboxes.contains_key(gone));
    lemma_publish_run(h1, later, h.next_id);
    assert(Seq::<PricePoint>::empty() + later =~= later);
}

} // verus!

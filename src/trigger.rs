//! The condition that starts sampling, and the watcher that fires it once.

use vstd::prelude::*;
use crate::event::ExternalEvent;
use vstd::std_specs::iter::IteratorSpec;

verus! {

/// Whether `k` occurs in `t` starting at position `i`.
pub open spec fn occurs_at(t: Seq<char>, k: Seq<char>, i: int) -> bool {
    0 <= i && i + k.len() <= t.len() && t.subrange(i, i + k.len()) == k
}

/// Whether `k` occurs anywhere in `t`.
pub open spec fn contains_seq(t: Seq<char>, k: Seq<char>) -> bool {
    exists|i: int| occurs_at(t, k, i)
}

/// A predicate over recognized feed posts: the text holds `keyword`, and
/// reposts count only when `skip_retweets` is off.
pub struct TriggerCondition {
    pub keyword: String,
    pub skip_retweets: bool,
}

impl TriggerCondition {
    pub open spec fn holds(&self, ev: ExternalEvent) -> bool {
        match ev {
            ExternalEvent::Recognized { text, is_retweet, .. } =>
                (!self.skip_retweets || !is_retweet) && contains_seq(text@, self.keyword@),
            ExternalEvent::Unrecognized => false,
        }
    }

    /// Evaluates the condition on one feed item; unrecognized items never match.
    pub fn matches(&self, ev: &ExternalEvent) -> (r: bool)
        ensures
            r == self.holds(*ev),
    {
        match ev {
            ExternalEvent::Recognized { text, is_retweet, .. } => {
                if self.skip_retweets && *is_retweet {
                    false
                } else {
                    let t = chars_of(text.as_str());
                    let k = chars_of(self.keyword.as_str());
                    contains_chars(&t, &k)
                }
            },
            ExternalEvent::Unrecognized => false,
        }
    }
}

/// The characters of a string, in order.
pub fn chars_of(s: &str) -> (r: Vec<char>)
    ensures
        r@ == s@,
{
    broadcast use vstd::string::axiom_spec_iter, vstd::string::next_postcondition;
    let mut it = s.chars();
    let mut out: Vec<char> = Vec::new();
    loop
        invariant
            out@ + it.remaining() == s@,
            it.obeys_prophetic_iter_laws(),
            it.decrease() is Some,
        decreases it.decrease()->0,
    {
        match it.next() {
            Some(c) => {
                out.push(c);
            },
            None => {
                return out;
            },
        }
    }
}

/// Whether `k` occurs as a contiguous run inside `t`.
pub fn contains_chars(t: &Vec<char>, k: &Vec<char>) -> (r: bool)
    ensures
        r == contains_seq(t@, k@),
{
    if k.len() > t.len() {
        assert(forall|i: int| !occurs_at(t@, k@, i));
        return false;
    }
    let last: usize = t.len() - k.len();
    let mut i: usize = 0;
    while i <= last
        invariant
            last == t.len() - k.len(),
            k.len() <= t.len(),
            forall|j: int| 0 <= j < i ==> !occurs_at(t@, k@, j),
        decreases last + 1 - i,
    {
        let mut j: usize = 0;
        let mut same = true;
        while j < k.len()
            invariant
                i <= last,
                last == t.len() - k.len(),
                j <= k.len(),
                same == (forall|m: int| 0 <= m < j ==> t@[i + m] == k@[m]),
            decreases k.len() - j,
        {
            if t[i + j] != k[j] {
                same = false;
            }
            j = j + 1;
        }
        if same {
            assert(t@.subrange(i as int, i + k.len()) =~= k@);
            assert(occurs_at(t@, k@, i as int));
            return true;
        }
        assert(!occurs_at(t@, k@, i as int)) by {
            if occurs_at(t@, k@, i as int) {
                let m = choose|m: int| 0 <= m < j && t@[i + m] != k@[m];
                assert(t@.subrange(i as int, i + k.len())[m] == t@[i + m]);
            }
        }
        i = i + 1;
    }
    assert(forall|j: int| !occurs_at(t@, k@, j));
    false
}

/// Evaluates feed items against a condition and fires on the first match;
/// after that it never fires again.
pub struct TriggerWatcher {
    condition: TriggerCondition,
    fired: bool,
}

impl TriggerWatcher {
    pub closed spec fn condition(&self) -> TriggerCondition {
        self.condition
    }

    pub closed spec fn has_fired(&self) -> bool {
        self.fired
    }

    /// A watcher that has not fired yet.
    pub fn new(condition: TriggerCondition) -> (r: TriggerWatcher)
        ensures
            r.condition() == condition,
            !r.has_fired(),
    {
        TriggerWatcher { condition, fired: false }
    }

    pub fn fired(&self) -> (r: bool)
        ensures
            r == self.has_fired(),
    {
        self.fired
    }

    /// Looks at one feed item; returns true exactly when this call fires,
    /// that is on the first item that meets the condition.
    pub fn observe(&mut self, ev: &ExternalEvent) -> (r: bool)
        ensures
            r == (!old(self).has_fired() && old(self).condition().holds(*ev)),
            final(self).has_fired() == (old(self).has_fired() || r),
            final(self).condition() == old(self).condition(),
    {
        if self.fired {
            return false;
        }
        if self.condition.matches(ev) {
            self.fired = true;
            true
        } else {
            false
        }
    }
}

/// The position of the first item of `events` that meets `condition`, if any.
pub fn first_match(condition: &TriggerCondition, events: &Vec<ExternalEvent>) -> (r: Option<usize>)
    ensures
        match r {
            Some(i) => i < events@.len() && condition.holds(events@[i as int])
                && forall|j: int| 0 <= j < i ==> !condition.holds(#[trigger] events@[j]),
            None => forall|j: int| 0 <= j < events@.len() ==> !condition.holds(#[trigger] events@[j]),
        },
{
    let mut i: usize = 0;
    while i < events.len()
        invariant
            i <= events@.len(),
            forall|j: int| 0 <= j < i ==> !condition.holds(#[trigger] events@[j]),
        decreases events@.len() - i,
    {
        if condition.matches(&events[i]) {
            return Some(i);
        }
        i = i + 1;
    }
    None
}

} // verus!

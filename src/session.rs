//! The decisions of one client connection: answer liveness probes, and
//! leave the hub exactly once, on whichever exit path comes first.

use vstd::prelude::*;
use crate::station::{Station, StationView};

verus! {

/// What a connection's task hands to its session.
pub enum SessionEvent {
    /// A liveness probe from the peer, with its payload.
    Ping(Vec<u8>),
    /// A frame from the peer that needs no answer.
    Other,
    /// The peer closed the connection.
    Close,
    /// The peer broke the protocol.
    ProtocolError,
    /// Sending a sample to the peer failed.
    SendFailed,
}

/// What the connection's task does next.
pub enum SessionAction {
    Nothing,
    /// Answer a probe with the same payload.
    Pong(Vec<u8>),
    /// Unregister this subscriber from the hub and end the connection.
    Leave(u64),
}

/// Whether an event ends the connection.
pub open spec fn ends_session(ev: SessionEvent) -> bool {
    match ev {
        SessionEvent::Close | SessionEvent::ProtocolError | SessionEvent::SendFailed => true,
        _ => false,
    }
}

/// Whether the session is still open after a run of events.
pub open spec fn open_after(open: bool, events: Seq<SessionEvent>) -> bool {
    open && forall|i: int| 0 <= i < events.len() ==> !ends_session(#[trigger] events[i])
}

/// How many events of a run make the session leave the hub.
pub open spec fn leaves(open: bool, events: Seq<SessionEvent>) -> nat
    decreases events.len(),
{
    if events.len() == 0 {
        0
    } else {
        let ends = open && ends_session(events[0]);
        (if ends { 1nat } else { 0nat }) + leaves(open && !ends, events.drop_first())
    }
}

/// One client connection registered with the hub under `id`.
pub struct Session {
    id: u64,
    open: bool,
}

impl Session {
    pub closed spec fn id(&self) -> u64 {
        self.id
    }

    pub closed spec fn is_open_spec(&self) -> bool {
        self.open
    }

    /// An open session for subscriber `id`.
    pub fn new(id: u64) -> (r: Session)
        ensures
            r.id() == id,
            r.is_open_spec(),
    {
        Session { id, open: true }
    }

    /// Opens the session of a newly accepted connection: registers a fresh
    /// subscriber with the station's hub and keeps its id. Samples published
    /// before this call never reach it. None when the ids are used up.
    pub fn started(station: &mut Station) -> (r: Option<Session>)
        requires
            old(station).wf(),
        ensures
            final(station).wf(),
            final(station)@ == (StationView { hub: old(station)@.hub.registered(), ..old(station)@ }),
            r is Some == old(station)@.hub.can_register(),
            r is Some ==> {
                &&& r->0.id() == old(station)@.hub.next_id
                &&& r->0.is_open_spec()
                &&& !old(station)@.hub.inboxes.contains_key(r->0.id())
                &&& final(station)@.hub.inboxes[r->0.id()] == Seq::<crate::price::PricePoint>::empty()
            },
    {
        proof {
            station.lemma_view_wf();
        }
        match station.register() {
            Some(id) => Some(Session::new(id)),
            None => None,
        }
    }

    pub fn subscriber(&self) -> (r: u64)
        ensures
            r == self.id(),
    {
        self.id
    }

    pub fn is_open(&self) -> (r: bool)
        ensures
            r == self.is_open_spec(),
    {
        self.open
    }

    /// Decides what to do on one event. Probes are answered while open; the
    /// first event that ends the session leaves the hub; a closed session
    /// does nothing.
    pub fn on_event(&mut self, ev: SessionEvent) -> (r: SessionAction)
        ensures
            final(self).id() == old(self).id(),
            final(self).is_open_spec() == (old(self).is_open_spec() && !ends_session(ev)),
            (r is Leave) == (old(self).is_open_spec() && ends_session(ev)),
            r is Leave ==> r->Leave_0 == old(self).id(),
            r is Pong <==> (old(self).is_open_spec() && ev is Ping),
            r is Pong ==> r->Pong_0@ == ev->Ping_0@,
    {
        if !self.open {
            return SessionAction::Nothing;
        }
        match ev {
            SessionEvent::Ping(payload) => SessionAction::Pong(payload),
            SessionEvent::Other => SessionAction::Nothing,
            SessionEvent::Close | SessionEvent::ProtocolError | SessionEvent::SendFailed => {
                self.open = false;
                SessionAction::Leave(self.id)
            },
        }
    }
}

/// Over any run of events a session leaves the hub at most once, and it
/// leaves exactly once when it was open and some event ends it.
pub proof fn lemma_leaves_exactly_once(open: bool, events: Seq<SessionEvent>)
    ensures
        leaves(open, events) <= 1,
        leaves(open, events) == (if open && !open_after(open, events) { 1nat } else { 0nat }),
    decreases events.len(),
{
    if events.len() > 0 {
        let rest = events.drop_first();
        let ends = open && ends_session(events[0]);
        lemma_leaves_exactly_once(open && !ends, rest);
        if open && !ends {
            if open_after(open && !ends, rest) {
                assert forall|i: int| 0 <= i < events.len() implies !ends_session(#[trigger] events[i]) by {
                    if i > 0 {
                        assert(events[i] == rest[i - 1]);
                    }
                }
            } else {
                let j = choose|j: int| 0 <= j < rest.len() && ends_session(#[trigger] rest[j]);
                assert(events[j + 1] == rest[j]);
            }
        } else {
            lemma_closed_never_leaves(rest);
        }
    }
}

proof fn lemma_closed_never_leaves(events: Seq<SessionEvent>)
    ensures
        leaves(false, events) == 0,
    decreases events.len(),
{
    if events.len() > 0 {
        lemma_closed_never_leaves(events.drop_first());
    }
}

} // verus!

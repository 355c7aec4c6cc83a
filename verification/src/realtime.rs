//! Change-notification fan-out: the store's triggers emit JSON payloads on
//! three channels; a single listener parses each, republishes recognised
//! ones on an in-process broadcast point with a bounded per-subscriber
//! backlog, and each client connection takes only the events whose
//! embedded user identifier is its own. The surrounding process runs the
//! listen/await loop; the decisions it takes are all here.

use vstd::prelude::*;

use crate::codec::str_eq;
use crate::models::{RealtimeEvent, SpecRealtimeEvent};

verus! {

/// The string member at `key` of `doc` read as a JSON object; `None` when
/// `doc` is not JSON, has no such member, or the member is not a string.
pub uninterp spec fn json_str_field_of(doc: Seq<char>, key: Seq<char>) -> Option<Seq<char>>;

/// Relies on serde_json's `from_str`, `Value::get` and `Value::as_str`:
/// the extracted member is a function of document and key alone.
#[verifier::external_body]
fn json_get_str(doc: &str, key: &str) -> (r: Option<String>)
    ensures
        match r {
            Some(s) => json_str_field_of(doc@, key@) == Some(s@),
            None => json_str_field_of(doc@, key@) is None,
        },
{
    let value: serde_json::Value = serde_json::from_str(doc).ok()?;
    let member = value.get(key)?.as_str()?;
    Some(member.to_string())
}

// ---------------------------------------------------------------------------
// Routing one notification
// ---------------------------------------------------------------------------

/// The event a notification payload republishes as: the payload must be a
/// JSON object with a string under the kind tag, else the listener drops
/// it and keeps going.
pub open spec fn route_notification_spec(payload: Seq<char>) -> Option<SpecRealtimeEvent> {
    match json_str_field_of(payload, "type"@) {
        Some(tag) => Some(SpecRealtimeEvent { event_type: tag, payload: payload }),
        None => None,
    }
}

/// Decide what one inbound notification becomes; `None` is a silent drop,
/// never a failure of the listener.
pub fn route_notification(payload: &str) -> (r: Option<RealtimeEvent>)
    ensures
        match r {
            Some(e) => route_notification_spec(payload@) == Some(e@),
            None => route_notification_spec(payload@) is None,
        },
{
    match json_get_str(payload, "type") {
        Some(tag) => Some(RealtimeEvent { event_type: tag, payload: payload.to_owned() }),
        None => None,
    }
}

/// The user identifier a payload carries, a missing one counting as
/// empty, as the connection filter counts it.
pub open spec fn event_user_spec(payload: Seq<char>) -> Seq<char> {
    match json_str_field_of(payload, "user_id"@) {
        Some(u) => u,
        None => Seq::empty(),
    }
}

/// Whether an event belongs on the stream of `user_id`.
pub open spec fn event_matches_user(e: SpecRealtimeEvent, user_id: Seq<char>) -> bool {
    event_user_spec(e.payload) == user_id
}

/// Decide whether one event goes out on one connection.
pub fn event_for_user(event: &RealtimeEvent, user_id: &str) -> (r: bool)
    ensures
        r == event_matches_user(event@, user_id@),
{
    match json_get_str(event.payload.as_str(), "user_id") {
        Some(u) => str_eq(u.as_str(), user_id),
        None => {
            proof {
                reveal_strlit("");
                assert(""@ =~= Seq::<char>::empty());
            }
            str_eq("", user_id)
        },
    }
}

// ---------------------------------------------------------------------------
// The broadcast point
// ---------------------------------------------------------------------------

impl RealtimeEvent {
    /// A field-for-field copy of the event.
    pub fn duplicate(&self) -> (r: RealtimeEvent)
        ensures
            r@ == self@,
    {
        RealtimeEvent { event_type: self.event_type.clone(), payload: self.payload.clone() }
    }
}

/// One client connection: its user and the bounded backlog of events it
/// has not taken yet, oldest first.
pub struct Subscriber {
    pub user_id: String,
    pub queue: Vec<RealtimeEvent>,
}

pub ghost struct SpecSubscriber {
    pub user_id: Seq<char>,
    pub queue: Seq<SpecRealtimeEvent>,
}

impl View for Subscriber {
    type V = SpecSubscriber;

    open spec fn view(&self) -> SpecSubscriber {
        SpecSubscriber {
            user_id: self.user_id@,
            queue: self.queue@.map_values(|e: RealtimeEvent| e@),
        }
    }
}

/// The in-process broadcast point: one writer, any number of subscribers,
/// a bounded backlog each. A publish never blocks and never fails; a
/// subscriber that cannot keep up loses its oldest events instead.
pub struct Bus {
    pub capacity: usize,
    pub subscribers: Vec<Subscriber>,
}

pub ghost struct SpecBus {
    pub capacity: usize,
    pub subscribers: Seq<SpecSubscriber>,
}

impl View for Bus {
    type V = SpecBus;

    open spec fn view(&self) -> SpecBus {
        SpecBus {
            capacity: self.capacity,
            subscribers: self.subscribers@.map_values(|s: Subscriber| s@),
        }
    }
}

/// One subscriber's backlog after a publish: the event goes to the back,
/// and when the backlog is full the oldest event makes room.
pub open spec fn queue_after_publish(
    q: Seq<SpecRealtimeEvent>,
    capacity: usize,
    e: SpecRealtimeEvent,
) -> Seq<SpecRealtimeEvent> {
    if q.len() >= capacity {
        q.subrange(1, q.len() as int).push(e)
    } else {
        q.push(e)
    }
}

/// The events of one backlog that belong to one user, oldest first.
pub open spec fn events_for_user(q: Seq<SpecRealtimeEvent>, user_id: Seq<char>) -> Seq<
    SpecRealtimeEvent,
>
    decreases q.len(),
{
    if q.len() == 0 {
        Seq::empty()
    } else {
        let init = events_for_user(q.drop_last(), user_id);
        if event_matches_user(q.last(), user_id) {
            init.push(q.last())
        } else {
            init
        }
    }
}

impl SpecBus {
    /// Every backlog stays within the bound.
    pub open spec fn wf(self) -> bool {
        &&& self.capacity > 0
        &&& forall|i: int|
            0 <= i < self.subscribers.len() ==> (#[trigger] self.subscribers[i]).queue.len()
                <= self.capacity
    }
}

impl Bus {
    /// A fresh broadcast point with no subscribers.
    pub fn new(capacity: usize) -> (r: Bus)
        requires
            capacity > 0,
        ensures
            r@.wf(),
            r@.capacity == capacity,
            r@.subscribers.len() == 0,
    {
        Bus { capacity: capacity, subscribers: Vec::new() }
    }

    /// Attach one connection for one user; its backlog starts empty.
    pub fn subscribe(&mut self, user_id: &str) -> (r: usize)
        requires
            old(self)@.wf(),
        ensures
            final(self)@.wf(),
            final(self)@.capacity == old(self)@.capacity,
            r == old(self)@.subscribers.len(),
            final(self)@.subscribers == old(self)@.subscribers.push(
                SpecSubscriber { user_id: user_id@, queue: Seq::empty() },
            ),
    {
        let idx = self.subscribers.len();
        let ghost pre = self@;
        let subscriber = Subscriber { user_id: user_id.to_owned(), queue: Vec::new() };
        let ghost subv = subscriber@;
        proof {
            assert(subv.queue =~= Seq::<SpecRealtimeEvent>::empty());
            assert(subv == (SpecSubscriber { user_id: user_id@, queue: Seq::empty() }));
        }
        self.subscribers.push(subscriber);
        proof {
            assert(self@.subscribers =~= pre.subscribers.push(
                SpecSubscriber { user_id: user_id@, queue: Seq::empty() },
            ));
            assert(self@.subscribers[pre.subscribers.len() as int].queue.len() == 0);
            assert(self@.wf()) by {
                assert(forall|i: int|
                    0 <= i < pre.subscribers.len() ==> self@.subscribers[i]
                        == pre.subscribers[i]);
            }
        }
        idx
    }

    /// Broadcast one event to every subscriber: each backlog takes it at
    /// the back, full backlogs lose their oldest event first, and the
    /// publisher never waits and never fails.
    pub fn publish(&mut self, event: &RealtimeEvent)
        requires
            old(self)@.wf(),
        ensures
            final(self)@.wf(),
            final(self)@.capacity == old(self)@.capacity,
            final(self)@.subscribers.len() == old(self)@.subscribers.len(),
            forall|i: int|
                0 <= i < old(self)@.subscribers.len() ==> (#[trigger] final(self)@.subscribers[i])
                    == (SpecSubscriber {
                    user_id: old(self)@.subscribers[i].user_id,
                    queue: queue_after_publish(
                        old(self)@.subscribers[i].queue,
                        old(self)@.capacity,
                        event@,
                    ),
                }),
    {
        let n = self.subscribers.len();
        let mut i: usize = 0;
        while i < n
            invariant
                0 <= i <= n,
                n == self.subscribers@.len(),
                self@.capacity == old(self)@.capacity,
                self@.wf(),
                forall|k: int|
                    i <= k < n ==> (#[trigger] self@.subscribers[k]) == old(
                        self,
                    )@.subscribers[k],
                forall|k: int|
                    0 <= k < i ==> (#[trigger] self@.subscribers[k]) == (SpecSubscriber {
                        user_id: old(self)@.subscribers[k].user_id,
                        queue: queue_after_publish(
                            old(self)@.subscribers[k].queue,
                            old(self)@.capacity,
                            event@,
                        ),
                    }),
            decreases n - i,
        {
            let ghost pre = self@;
            let sub = &self.subscribers[i];
            let start: usize = if sub.queue.len() >= self.capacity {
                1
            } else {
                0
            };
            let mut queue: Vec<RealtimeEvent> = Vec::new();
            let qn = sub.queue.len();
            let mut k: usize = start;
            while k < qn
                invariant
                    start <= k <= qn,
                    qn == sub.queue@.len(),
                    queue@.len() == k - start,
                    forall|a: int|
                        0 <= a < queue@.len() ==> (#[trigger] queue@[a])@ == sub.queue@[a
                            + start]@,
                decreases qn - k,
            {
                queue.push(sub.queue[k].duplicate());
                k += 1;
            }
            queue.push(event.duplicate());
            let replacement = Subscriber { user_id: sub.user_id.clone(), queue: queue };
            let ghost replv = replacement@;
            self.subscribers[i] = replacement;
            proof {
                assert(replv.queue =~= queue_after_publish(
                    pre.subscribers[i as int].queue,
                    pre.capacity,
                    event@,
                ));
                assert(replv == (SpecSubscriber {
                    user_id: pre.subscribers[i as int].user_id,
                    queue: queue_after_publish(
                        pre.subscribers[i as int].queue,
                        pre.capacity,
                        event@,
                    ),
                }));
                assert forall|k0: int| 0 <= k0 < n implies #[trigger] self@.subscribers[k0] == (
                if k0 == i {
                    replv
                } else {
                    pre.subscribers[k0]
                }) by {
                    assert(self@.subscribers[k0] == self.subscribers@[k0]@);
                }
                assert(self@.wf()) by {
                    assert(replv.queue.len() <= pre.capacity);
                }
            }
            i += 1;
        }
    }

    /// Hand one connection everything in its backlog that belongs to its
    /// user, oldest first, and clear the backlog; events for other users
    /// are discarded with it, per connection, never server-wide.
    pub fn drain(&mut self, idx: usize) -> (r: Vec<RealtimeEvent>)
        requires
            old(self)@.wf(),
            idx < old(self)@.subscribers.len(),
        ensures
            final(self)@.wf(),
            final(self)@.capacity == old(self)@.capacity,
            r@.map_values(|e: RealtimeEvent| e@) == events_for_user(
                old(self)@.subscribers[idx as int].queue,
                old(self)@.subscribers[idx as int].user_id,
            ),
            final(self)@.subscribers == old(self)@.subscribers.update(
                idx as int,
                SpecSubscriber {
                    user_id: old(self)@.subscribers[idx as int].user_id,
                    queue: Seq::empty(),
                },
            ),
    {
        let sub = &self.subscribers[idx];
        let qn = sub.queue.len();
        let mut out: Vec<RealtimeEvent> = Vec::new();
        let mut k: usize = 0;
        while k < qn
            invariant
                0 <= k <= qn,
                qn == sub.queue@.len(),
                out@.map_values(|e: RealtimeEvent| e@) == events_for_user(
                    sub@.queue.subrange(0, k as int),
                    sub@.user_id,
                ),
            decreases qn - k,
        {
            let ghost pre = sub@.queue.subrange(0, k as int);
            let ghost ext = sub@.queue.subrange(0, k as int + 1);
            proof {
                assert(ext.drop_last() =~= pre);
                assert(ext.last() == sub@.queue[k as int]);
            }
            if event_for_user(&sub.queue[k], sub.user_id.as_str()) {
                out.push(sub.queue[k].duplicate());
            }
            proof {
                assert(out@.map_values(|e: RealtimeEvent| e@) =~= events_for_user(
                    ext,
                    sub@.user_id,
                ));
            }
            k += 1;
        }
        proof {
            assert(sub@.queue.subrange(0, qn as int) =~= sub@.queue);
        }
        let ghost pre = self@;
        let replacement = Subscriber {
            user_id: self.subscribers[idx].user_id.clone(),
            queue: Vec::new(),
        };
        let ghost replv = replacement@;
        self.subscribers[idx] = replacement;
        proof {
            assert(replv.queue =~= Seq::<SpecRealtimeEvent>::empty());
            assert(self@.subscribers =~= pre.subscribers.update(
                idx as int,
                SpecSubscriber { user_id: pre.subscribers[idx as int].user_id, queue: Seq::empty() },
            ));
            assert(self@.wf()) by {
                assert(forall|i: int|
                    0 <= i < pre.subscribers.len() && i != idx ==> (#[trigger] self@.subscribers[i])
                        == pre.subscribers[i]);
            }
        }
        out
    }
}

// ---------------------------------------------------------------------------
// Law of the stream filter
// ---------------------------------------------------------------------------

/// A connection subscribed for one user receives only events whose
/// payload carries that user's identifier — whatever else was published
/// around them.
pub proof fn lemma_drain_only_matching(q: Seq<SpecRealtimeEvent>, user_id: Seq<char>)
    ensures
        forall|k: int|
            0 <= k < events_for_user(q, user_id).len() ==> event_matches_user(
                #[trigger] events_for_user(q, user_id)[k],
                user_id,
            ),
        forall|i: int|
            0 <= i < q.len() && event_matches_user(#[trigger] q[i], user_id) ==> events_for_user(
                q,
                user_id,
            ).contains(q[i]),
    decreases q.len(),
{
    if q.len() > 0 {
        lemma_drain_only_matching(q.drop_last(), user_id);
        let init = events_for_user(q.drop_last(), user_id);
        let whole = events_for_user(q, user_id);
        assert forall|i: int|
            0 <= i < q.len() && event_matches_user(#[trigger] q[i], user_id) implies whole.contains(
            q[i],
        ) by {
            if i < q.len() - 1 {
                assert(q.drop_last()[i] == q[i]);
                assert(init.contains(q[i]));
                let w = choose|w: int| 0 <= w < init.len() && init[w] == q[i];
                assert(whole[w] == q[i]);
            } else {
                assert(whole.last() == q[i]);
            }
        }
    }
}

} // verus!

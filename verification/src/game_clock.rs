//! The game clock: a time-ordered queue of named one-shot and repeating
//! events.
//!
//! The queue is kept sorted by ascending trigger time; events scheduled
//! for the same millisecond keep their insertion order. An update pass
//! pops everything due at the given time, in order, and reschedules each
//! repeating event from its actual fire time — `now + interval`, not the
//! ideal slot it was due at — so delays push the cadence back rather than
//! letting it catch up.

use vstd::prelude::*;

verus! {

/// Scheduled events are identified by integer ids handed out from 1
/// upward; 0 is reserved as the failure sentinel of the operation surface.
pub type EventId = u32;

/// A scheduled event: when it fires, the callback it names, and its
/// cadence where it repeats.
#[derive(Clone, Debug)]
pub struct GameEvent {
    pub id: EventId,
    pub trigger_time_millis: u64,
    pub callback_name: String,
    pub repeat_interval_millis: Option<u64>,
}

/// Whether the events are ordered by ascending trigger time.
pub open spec fn triggers_sorted(q: Seq<GameEvent>) -> bool {
    forall|i: int, j: int| #![trigger q[i], q[j]]
        0 <= i < j < q.len() ==> q[i].trigger_time_millis <= q[j].trigger_time_millis
}

/// Whether every repeating event has a cadence of at least one
/// millisecond. A zero interval would make an update pass fire and
/// reschedule the same event without end.
pub open spec fn intervals_positive(q: Seq<GameEvent>) -> bool {
    forall|i: int| #![trigger q[i]]
        0 <= i < q.len() ==> match q[i].repeat_interval_millis {
            Some(iv) => iv >= 1,
            None => true,
        }
}

/// Addition on millisecond clocks, saturating at the end of time.
pub open spec fn spec_sat_add(a: u64, b: u64) -> u64 {
    if a + b > u64::MAX {
        u64::MAX
    } else {
        (a + b) as u64
    }
}

/// `e` inserted into the sorted queue `q`, after every event due no later
/// than it: ties keep insertion order.
pub open spec fn spec_insert(q: Seq<GameEvent>, e: GameEvent) -> Seq<GameEvent>
    decreases q.len(),
{
    if q.len() == 0 {
        seq![e]
    } else if q[0].trigger_time_millis <= e.trigger_time_millis {
        seq![q[0]] + spec_insert(q.skip(1), e)
    } else {
        seq![e] + q
    }
}

/// How many events at the front of the sorted queue `q` are due at `now`.
pub open spec fn spec_due_count(q: Seq<GameEvent>, now: u64) -> int
    decreases q.len(),
{
    if q.len() > 0 && q[0].trigger_time_millis <= now {
        1 + spec_due_count(q.skip(1), now)
    } else {
        0
    }
}

/// The copy of a repeating event that goes back on the queue after it
/// fires at `now`: same id, name and cadence, due again one interval
/// after the actual fire time.
pub open spec fn spec_reschedule(e: GameEvent, now: u64) -> GameEvent {
    GameEvent {
        id: e.id,
        trigger_time_millis: spec_sat_add(now, e.repeat_interval_millis->0),
        callback_name: e.callback_name,
        repeat_interval_millis: e.repeat_interval_millis,
    }
}

/// The queue left after an update pass at `now`: the undue remainder
/// `rem`, with the rescheduled copy of each repeating fired event
/// inserted, in fire order.
pub open spec fn spec_requeue(rem: Seq<GameEvent>, fired: Seq<GameEvent>, now: u64) -> Seq<
    GameEvent,
>
    decreases fired.len(),
{
    if fired.len() == 0 {
        rem
    } else {
        let prev = spec_requeue(rem, fired.drop_last(), now);
        if fired.last().repeat_interval_millis is Some {
            spec_insert(prev, spec_reschedule(fired.last(), now))
        } else {
            prev
        }
    }
}

/// `spec_insert` splices the new event exactly at the first index whose
/// trigger is later.
proof fn lemma_spec_insert_splice(q: Seq<GameEvent>, e: GameEvent, idx: int)
    requires
        0 <= idx <= q.len(),
        forall|j: int| 0 <= j < idx ==> (#[trigger] q[j]).trigger_time_millis
            <= e.trigger_time_millis,
        idx < q.len() ==> q[idx].trigger_time_millis > e.trigger_time_millis,
    ensures
        spec_insert(q, e) == q.take(idx) + seq![e] + q.skip(idx),
    decreases idx,
{
    if idx == 0 {
        if q.len() == 0 {
            assert(spec_insert(q, e) =~= q.take(0) + seq![e] + q.skip(0));
        } else {
            assert(spec_insert(q, e) =~= q.take(0) + seq![e] + q.skip(0));
        }
    } else {
        assert(q[0].trigger_time_millis <= e.trigger_time_millis);
        lemma_spec_insert_splice(q.skip(1), e, idx - 1);
        assert(spec_insert(q, e) =~= q.take(idx) + seq![e] + q.skip(idx)) by {
            assert(q.skip(1).take(idx - 1) =~= q.take(idx).skip(1));
            assert(q.skip(1).skip(idx - 1) =~= q.skip(idx));
            assert(seq![q[0]] + (q.skip(1).take(idx - 1) + seq![e] + q.skip(1).skip(idx - 1))
                =~= q.take(idx) + seq![e] + q.skip(idx));
        }
    }
}

/// In a sorted queue, the due count marks the exact boundary: everything
/// before it is due at `now`, everything after it is not.
pub proof fn lemma_due_prefix(q: Seq<GameEvent>, now: u64)
    requires
        triggers_sorted(q),
    ensures
        0 <= spec_due_count(q, now) <= q.len(),
        forall|i: int| 0 <= i < spec_due_count(q, now)
            ==> (#[trigger] q[i]).trigger_time_millis <= now,
        forall|i: int| spec_due_count(q, now) <= i < q.len()
            ==> (#[trigger] q[i]).trigger_time_millis > now,
    decreases q.len(),
{
    if q.len() > 0 && q[0].trigger_time_millis <= now {
        assert(triggers_sorted(q.skip(1)));
        lemma_due_prefix(q.skip(1), now);
        let k = spec_due_count(q, now);
        assert forall|i: int| 0 <= i < k implies (#[trigger] q[i]).trigger_time_millis <= now by {
            if i > 0 {
                assert(q.skip(1)[i - 1].trigger_time_millis <= now);
            }
        }
        assert forall|i: int| k <= i < q.len() implies (#[trigger] q[i]).trigger_time_millis
            > now by {
            assert(q.skip(1)[i - 1].trigger_time_millis > now);
        }
    }
}

/// The due events of a sorted queue are exactly its longest due prefix.
proof fn lemma_due_count_is_prefix(q: Seq<GameEvent>, now: u64, m: int)
    requires
        0 <= m <= q.len(),
        forall|j: int| 0 <= j < m ==> (#[trigger] q[j]).trigger_time_millis <= now,
        m < q.len() ==> q[m].trigger_time_millis > now,
    ensures
        spec_due_count(q, now) == m,
    decreases m,
{
    if m == 0 {
    } else {
        lemma_due_count_is_prefix(q.skip(1), now, m - 1);
    }
}

/// The min-ordered scheduler of named one-shot and repeating events.
pub struct GameClock {
    queue: Vec<GameEvent>,
    next_event_id: EventId,
}

impl GameClock {
    /// The scheduled events, ordered by ascending trigger time.
    pub closed spec fn queue(&self) -> Seq<GameEvent> {
        self.queue@
    }

    /// The id the next scheduled event will get.
    pub closed spec fn next_id(&self) -> EventId {
        self.next_event_id
    }

    /// The queue is sorted, every cadence is positive, and ids are handed
    /// out from 1 upward.
    pub open spec fn wf(&self) -> bool {
        &&& triggers_sorted(self.queue())
        &&& intervals_positive(self.queue())
        &&& self.next_id() >= 1
    }

    /// An empty clock; the first scheduled event will get id 1.
    pub fn new() -> (r: Self)
        ensures
            r.wf(),
            r.queue() =~= Seq::<GameEvent>::empty(),
            r.next_id() == 1,
    {
        GameClock { queue: Vec::new(), next_event_id: 1 }
    }

    /// The id the next scheduled event will get.
    pub fn next_event_id(&self) -> (r: EventId)
        ensures
            r == self.next_id(),
    {
        self.next_event_id
    }

    /// Splice one event into the queue, after every event due no later.
    fn insert_sorted(&mut self, e: GameEvent)
        requires
            old(self).wf(),
            e.repeat_interval_millis is Some ==> e.repeat_interval_millis->0 >= 1,
        ensures
            final(self).wf(),
            final(self).queue() == spec_insert(old(self).queue(), e),
            final(self).next_id() == old(self).next_id(),
    {
        let ghost oq = self.queue@;
        let n = self.queue.len();
        let mut idx: usize = 0;
        while idx < n && self.queue[idx].trigger_time_millis <= e.trigger_time_millis
            invariant
                self.queue@ == oq,
                n == oq.len(),
                idx <= n,
                forall|j: int| 0 <= j < idx ==> (#[trigger] oq[j]).trigger_time_millis
                    <= e.trigger_time_millis,
            decreases n - idx,
        {
            idx = idx + 1;
        }
        self.queue.insert(idx, e);
        proof {
            lemma_spec_insert_splice(oq, e, idx as int);
            assert(self.queue@ =~= oq.take(idx as int) + seq![e] + oq.skip(idx as int));
            assert forall|a: int, b: int| #![trigger self.queue@[a], self.queue@[b]]
                0 <= a < b < self.queue@.len() implies self.queue@[a].trigger_time_millis
                <= self.queue@[b].trigger_time_millis by {
                if a < idx && b > idx {
                    assert(oq[a].trigger_time_millis <= e.trigger_time_millis);
                    assert(oq[b - 1].trigger_time_millis > e.trigger_time_millis
                        || oq[b - 1].trigger_time_millis <= oq[b - 1].trigger_time_millis);
                    if idx < oq.len() {
                        assert(oq[idx as int].trigger_time_millis > e.trigger_time_millis);
                    }
                }
            }
        }
    }

    /// Schedule a one-shot event to fire once the game clock reaches
    /// `millis`. Returns the fresh id of the scheduled event.
    pub fn schedule_event_at_millis(&mut self, millis: u64, callback_name: String) -> (r: EventId)
        requires
            old(self).wf(),
            old(self).next_id() < EventId::MAX,
        ensures
            final(self).wf(),
            r == old(self).next_id(),
            final(self).next_id() == old(self).next_id() + 1,
            final(self).queue() == spec_insert(
                old(self).queue(),
                GameEvent {
                    id: old(self).next_id(),
                    trigger_time_millis: millis,
                    callback_name,
                    repeat_interval_millis: None,
                },
            ),
    {
        let event_id = self.next_event_id;
        self.next_event_id = self.next_event_id + 1;
        let event = GameEvent {
            id: event_id,
            trigger_time_millis: millis,
            callback_name,
            repeat_interval_millis: None,
        };
        self.insert_sorted(event);
        event_id
    }

    /// Schedule a repeating event: first due at `start_time_millis`, then
    /// again one interval after each actual fire time. The cadence must be
    /// at least one millisecond. Returns the fresh id of the scheduled
    /// event.
    pub fn schedule_repeating_event(
        &mut self,
        start_time_millis: u64,
        interval_millis: u64,
        callback_name: String,
    ) -> (r: EventId)
        requires
            old(self).wf(),
            old(self).next_id() < EventId::MAX,
            interval_millis >= 1,
        ensures
            final(self).wf(),
            r == old(self).next_id(),
            final(self).next_id() == old(self).next_id() + 1,
            final(self).queue() == spec_insert(
                old(self).queue(),
                GameEvent {
                    id: old(self).next_id(),
                    trigger_time_millis: start_time_millis,
                    callback_name,
                    repeat_interval_millis: Some(interval_millis),
                },
            ),
    {
        let event_id = self.next_event_id;
        self.next_event_id = self.next_event_id + 1;
        let event = GameEvent {
            id: event_id,
            trigger_time_millis: start_time_millis,
            callback_name,
            repeat_interval_millis: Some(interval_millis),
        };
        self.insert_sorted(event);
        event_id
    }

    /// Schedule a repeating event that is already due: it fires on the
    /// next update pass and repeats from then on.
    pub fn schedule_repeating_event_now(&mut self, interval_millis: u64, callback_name: String)
        -> (r: EventId)
        requires
            old(self).wf(),
            old(self).next_id() < EventId::MAX,
            interval_millis >= 1,
        ensures
            final(self).wf(),
            r == old(self).next_id(),
            final(self).next_id() == old(self).next_id() + 1,
            final(self).queue() == spec_insert(
                old(self).queue(),
                GameEvent {
                    id: old(self).next_id(),
                    trigger_time_millis: 0,
                    callback_name,
                    repeat_interval_millis: Some(interval_millis),
                },
            ),
    {
        self.schedule_repeating_event(0, interval_millis, callback_name)
    }

    /// Cancellation is a documented limitation of this clock: the call
    /// always reports failure and removes nothing, so a "cancelled" event
    /// still fires on schedule.
    pub fn cancel_event(&mut self, event_id: EventId) -> (r: bool)
        ensures
            *final(self) == *old(self),
            r == false,
    {
        let _ = event_id;
        false
    }

    /// One update pass at `current_time_millis`: pop every due event, in
    /// ascending trigger order with ties in insertion order, and put the
    /// rescheduled copy of each repeating one back on the queue before
    /// returning the whole fired batch.
    pub fn update(&mut self, current_time_millis: u64) -> (fired: Vec<GameEvent>)
        requires
            old(self).wf(),
        ensures
            final(self).wf(),
            final(self).next_id() == old(self).next_id(),
            fired@ == old(self).queue().take(spec_due_count(old(self).queue(), current_time_millis)),
            final(self).queue() == spec_requeue(
                old(self).queue().skip(spec_due_count(old(self).queue(), current_time_millis)),
                fired@,
                current_time_millis,
            ),
    {
        let ghost oq = self.queue@;
        let mut fired: Vec<GameEvent> = Vec::new();
        while self.queue.len() > 0 && self.queue[0].trigger_time_millis <= current_time_millis
            invariant
                triggers_sorted(oq),
                intervals_positive(oq),
                fired@.len() + self.queue@.len() == oq.len(),
                fired@ == oq.take(fired@.len() as int),
                self.queue@ == oq.skip(fired@.len() as int),
                forall|j: int| 0 <= j < fired@.len() ==> (#[trigger] oq[j]).trigger_time_millis
                    <= current_time_millis,
                self.next_event_id == old(self).next_event_id,
            decreases self.queue@.len(),
        {
            let ghost m = fired@.len() as int;
            let e = self.queue.remove(0);
            fired.push(e);
            proof {
                assert(fired@ =~= oq.take(m + 1));
                assert(self.queue@ =~= oq.skip(m + 1));
            }
        }
        let ghost k = fired@.len() as int;
        proof {
            lemma_due_count_is_prefix(oq, current_time_millis, k);
            assert(spec_due_count(oq, current_time_millis) == k);
        }
        let n = fired.len();
        let mut i: usize = 0;
        while i < n
            invariant
                n == fired@.len(),
                i <= n,
                0 <= k <= oq.len(),
                fired@ == oq.take(k),
                k == fired@.len() as int,
                intervals_positive(oq),
                triggers_sorted(oq),
                self.wf(),
                self.next_event_id == old(self).next_event_id,
                self.queue@ == spec_requeue(oq.skip(k), fired@.take(i as int), current_time_millis),
            decreases n - i,
        {
            proof {
                assert(fired@[i as int] == oq[i as int]);
            }
            let repeat = fired[i].repeat_interval_millis;
            match repeat {
                Some(interval_millis) => {
                    let trigger = if current_time_millis > u64::MAX - interval_millis {
                        u64::MAX
                    } else {
                        current_time_millis + interval_millis
                    };
                    let next_event = GameEvent {
                        id: fired[i].id,
                        trigger_time_millis: trigger,
                        callback_name: fired[i].callback_name.clone(),
                        repeat_interval_millis: Some(interval_millis),
                    };
                    proof {
                        assert(next_event == spec_reschedule(fired@[i as int], current_time_millis));
                    }
                    self.insert_sorted(next_event);
                },
                None => {},
            }
            proof {
                assert(fired@.take(i + 1).drop_last() =~= fired@.take(i as int));
                assert(fired@.take(i + 1).last() == fired@[i as int]);
            }
            i = i + 1;
        }
        proof {
            assert(fired@.take(n as int) =~= fired@);
        }
        fired
    }

    /// How many events are scheduled.
    pub fn event_count(&self) -> (r: usize)
        ensures
            r == self.queue().len(),
    {
        self.queue.len()
    }

    /// When the next event is due, where any is scheduled. The queue is
    /// sorted, so this is the earliest trigger time in the clock.
    pub fn next_event_time(&self) -> (r: Option<u64>)
        ensures
            match r {
                Some(t) => self.queue().len() > 0 && t == self.queue()[0].trigger_time_millis,
                None => self.queue().len() == 0,
            },
    {
        if self.queue.len() > 0 {
            Some(self.queue[0].trigger_time_millis)
        } else {
            None
        }
    }
}

} // verus!

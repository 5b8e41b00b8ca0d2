//! The readings bus: one producer publishes, and each subscriber reads from a bounded queue
//! of its own. A subscriber that falls behind loses its oldest readings and is told how many.

use crate::reading::Reading;
use std::collections::VecDeque;
use vstd::prelude::*;

verus! {

/// What a subscriber gets when it asks for the next reading.
#[derive(Debug, Clone, Copy, PartialEq, Eq, Structural)]
pub enum WaitOutcome {
    /// The oldest reading that the subscriber has not read yet.
    Delivered(Reading),
    /// So many readings were dropped since the subscriber last read.
    Lagged(u64),
}

/// What the bus holds for one subscriber: the readings that it has not read yet, oldest
/// first, and the number dropped that it was not told of yet.
pub struct Backlog {
    pub pending: Seq<Reading>,
    pub lagged: nat,
}

/// A backlog without readings and without drops.
pub open spec fn empty_backlog() -> Backlog {
    Backlog { pending: Seq::empty(), lagged: 0 }
}

/// A count of drops that stops at the largest value it can be reported with.
pub open spec fn capped(count: nat) -> nat {
    if count <= u64::MAX {
        count
    } else {
        u64::MAX as nat
    }
}

/// The backlog after `reading` was published to a queue of `capacity` places: the reading
/// comes last; where the queue was full, its oldest reading is dropped and counted.
pub open spec fn after_publish(b: Backlog, reading: Reading, capacity: nat) -> Backlog {
    if b.pending.len() < capacity {
        Backlog { pending: b.pending.push(reading), lagged: b.lagged }
    } else if capacity == 0 {
        Backlog { pending: b.pending, lagged: capped(b.lagged + 1) }
    } else {
        Backlog { pending: b.pending.drop_first().push(reading), lagged: capped(b.lagged + 1) }
    }
}

/// What the subscriber gets next: the count of drops where there are any, else its oldest
/// reading, else nothing yet.
pub open spec fn next_outcome(b: Backlog) -> Option<WaitOutcome> {
    if b.lagged > 0 {
        Some(WaitOutcome::Lagged(b.lagged as u64))
    } else if b.pending.len() > 0 {
        Some(WaitOutcome::Delivered(b.pending[0]))
    } else {
        None
    }
}

/// The backlog after the subscriber took [`next_outcome`]: the drops are reported once, a
/// delivered reading leaves the queue.
pub open spec fn after_next(b: Backlog) -> Backlog {
    if b.lagged > 0 {
        Backlog { pending: b.pending, lagged: 0 }
    } else if b.pending.len() > 0 {
        Backlog { pending: b.pending.drop_first(), lagged: 0 }
    } else {
        b
    }
}

/// The backlogs of all subscribers after `reading` was published.
pub open spec fn all_after_publish(bs: Seq<Backlog>, reading: Reading, capacity: nat) -> Seq<
    Backlog,
> {
    Seq::new(bs.len(), |i: int| after_publish(bs[i], reading, capacity))
}

/// The backlogs of all subscribers after subscriber `who` took its next outcome. A number
/// that names no subscriber changes nothing.
pub open spec fn all_after_next(bs: Seq<Backlog>, who: int) -> Seq<Backlog> {
    if 0 <= who < bs.len() {
        bs.update(who, after_next(bs[who]))
    } else {
        bs
    }
}

/// The queue of one subscriber.
#[derive(Debug)]
struct Queue {
    pending: VecDeque<Reading>,
    lagged: u64,
}

impl Queue {
    spec fn backlog(&self) -> Backlog {
        Backlog { pending: self.pending@, lagged: self.lagged as nat }
    }
}

/// A subscriber's handle to its queue.
#[derive(Debug, Clone, Copy, PartialEq, Eq, Structural)]
pub struct Subscription {
    id: usize,
}

impl Subscription {
    /// The subscriber's place among the subscribers of its topic, in the order in which they
    /// subscribed.
    pub closed spec fn index(&self) -> int {
        self.id as int
    }

    /// The subscriber's place among the subscribers of its topic.
    pub fn position(&self) -> (place: usize)
        ensures
            place == self.index(),
    {
        self.id
    }
}

/// The bus for readings, with the queues of its subscribers.
#[derive(Debug)]
pub struct Topic {
    capacity: usize,
    queues: Vec<Queue>,
}

impl Topic {
    /// The topic's invariant: no queue holds more than the capacity.
    pub closed spec fn wf(&self) -> bool {
        forall|i: int|
            0 <= i < self.queues@.len() ==> (#[trigger] self.queues@[i]).pending@.len()
                <= self.capacity
    }

    /// The number of readings that a subscriber's queue can hold.
    pub closed spec fn limit(&self) -> nat {
        self.capacity as nat
    }

    /// The backlog of each subscriber, in the order in which they subscribed.
    pub closed spec fn backlogs(&self) -> Seq<Backlog> {
        Seq::new(self.queues@.len(), |i: int| self.queues@[i].backlog())
    }

    /// In a well-formed topic no backlog is longer than the capacity, and no count of drops
    /// exceeds what can be reported.
    pub proof fn lemma_backlogs_bounded(&self)
        requires
            self.wf(),
        ensures
            forall|i: int|
                0 <= i < self.backlogs().len() ==> (#[trigger] self.backlogs()[i]).pending.len()
                    <= self.limit() && self.backlogs()[i].lagged <= u64::MAX,
    {
    }

    /// A topic without subscribers, whose queues will hold `capacity` readings each.
    pub fn new(capacity: usize) -> (topic: Topic)
        ensures
            topic.wf(),
            topic.limit() == capacity,
            topic.backlogs() == Seq::<Backlog>::empty(),
    {
        let topic = Topic { capacity, queues: Vec::new() };
        proof {
            assert(topic.backlogs() =~= Seq::<Backlog>::empty());
        }
        topic
    }

    /// The number of subscribers.
    pub fn subscribers(&self) -> (count: usize)
        ensures
            count == self.backlogs().len(),
    {
        self.queues.len()
    }

    /// The capacity of each queue.
    pub fn capacity(&self) -> (capacity: usize)
        ensures
            capacity == self.limit(),
    {
        self.capacity
    }

    /// Adds a subscriber with an empty queue. It gets the readings published from now on;
    /// the queues of the others are untouched.
    pub fn subscribe(&mut self) -> (sub: Subscription)
        requires
            old(self).wf(),
        ensures
            final(self).wf(),
            final(self).limit() == old(self).limit(),
            sub.index() == old(self).backlogs().len(),
            final(self).backlogs() == old(self).backlogs().push(empty_backlog()),
    {
        let id = self.queues.len();
        self.queues.push(Queue { pending: VecDeque::new(), lagged: 0 });
        proof {
            assert(self.backlogs() =~= old(self).backlogs().push(empty_backlog()));
        }
        Subscription { id }
    }

    /// Publishes `reading` to every subscriber, without waiting for any of them: a full
    /// queue loses its oldest reading, and its subscriber's count of drops goes up by one.
    pub fn publish(&mut self, reading: Reading)
        requires
            old(self).wf(),
        ensures
            final(self).wf(),
            final(self).limit() == old(self).limit(),
            final(self).backlogs() == all_after_publish(
                old(self).backlogs(),
                reading,
                old(self).limit(),
            ),
    {
        let n = self.queues.len();
        let mut i: usize = 0;
        while i < n
            invariant
                i <= n,
                n == self.queues@.len(),
                n == old(self).queues@.len(),
                self.capacity == old(self).capacity,
                old(self).wf(),
                forall|j: int|
                    0 <= j < i ==> (#[trigger] self.queues@[j]).backlog() == after_publish(
                        old(self).queues@[j].backlog(),
                        reading,
                        self.capacity as nat,
                    ),
                forall|j: int| i <= j < n ==> #[trigger] self.queues@[j] == old(self).queues@[j],
                forall|j: int|
                    0 <= j < i ==> (#[trigger] self.queues@[j]).pending@.len() <= self.capacity,
            decreases n - i,
        {
            let capacity = self.capacity;
            let ghost before = self.queues@;
            let q = &mut self.queues[i];
            let ghost was = q.backlog();
            if q.pending.len() < capacity {
                q.pending.push_back(reading);
            } else {
                if capacity > 0 {
                    let _ = q.pending.pop_front();
                    q.pending.push_back(reading);
                }
                if q.lagged < u64::MAX {
                    q.lagged = q.lagged + 1;
                }
            }
            proof {
                assert(was == old(self).queues@[i as int].backlog());
                assert(was.pending.len() <= capacity);
                if was.pending.len() >= capacity && capacity > 0 {
                    assert(was.pending.subrange(1, was.pending.len() as int)
                        =~= was.pending.drop_first());
                }
                assert(self.queues@[i as int].backlog().pending =~= after_publish(
                    was,
                    reading,
                    capacity as nat,
                ).pending);
            }
            i = i + 1;
        }
        proof {
            assert(self.backlogs() =~= all_after_publish(
                old(self).backlogs(),
                reading,
                old(self).limit(),
            ));
        }
    }

    /// Takes the next outcome for `sub`: the count of dropped readings if there are any to
    /// report, else the oldest reading of its queue, else `None`, on which the subscriber
    /// waits for the next publication. Nothing but the queue of `sub` changes. A handle that
    /// is not of this topic gets `None`.
    pub fn next(&mut self, sub: &Subscription) -> (outcome: Option<WaitOutcome>)
        requires
            old(self).wf(),
        ensures
            final(self).wf(),
            final(self).limit() == old(self).limit(),
            final(self).backlogs() == all_after_next(old(self).backlogs(), sub.index()),
            outcome == (if sub.index() < old(self).backlogs().len() {
                next_outcome(old(self).backlogs()[sub.index()])
            } else {
                None
            }),
    {
        if sub.id >= self.queues.len() {
            return None;
        }
        let q = &mut self.queues[sub.id];
        let ghost was = q.backlog();
        let outcome = if q.lagged > 0 {
            let n = q.lagged;
            q.lagged = 0;
            Some(WaitOutcome::Lagged(n))
        } else {
            match q.pending.pop_front() {
                Some(reading) => Some(WaitOutcome::Delivered(reading)),
                None => None,
            }
        };
        proof {
            if was.lagged == 0 && was.pending.len() > 0 {
                assert(was.pending.subrange(1, was.pending.len() as int)
                    =~= was.pending.drop_first());
            }
            assert(self.queues@[sub.id as int].backlog() == after_next(was));
            assert(self.backlogs() =~= all_after_next(old(self).backlogs(), sub.index()));
        }
        outcome
    }
}

/// The backlog after the readings `rs` were published one after the other.
pub open spec fn after_publish_all(b: Backlog, rs: Seq<Reading>, capacity: nat) -> Backlog
    decreases rs.len(),
{
    if rs.len() == 0 {
        b
    } else {
        after_publish(after_publish_all(b, rs.drop_last(), capacity), rs.last(), capacity)
    }
}

/// The backlog after the subscriber took its next outcome `k` times.
pub open spec fn after_nexts(b: Backlog, k: nat) -> Backlog
    decreases k,
{
    if k == 0 {
        b
    } else {
        after_next(after_nexts(b, (k - 1) as nat))
    }
}

/// The number of readings that a queue of `capacity` places loses when `count` readings are
/// to be held.
pub open spec fn overflow(count: nat, capacity: nat) -> nat {
    if count > capacity {
        (count - capacity) as nat
    } else {
        0
    }
}

/// Publishing keeps the newest readings in the order of publication: after `rs` were
/// published, the queue holds the end of what it held followed by `rs`, as much of it as the
/// capacity admits, and every reading that is missing at the front was counted as dropped.
pub proof fn lemma_publish_keeps_newest(b: Backlog, rs: Seq<Reading>, capacity: nat)
    requires
        b.pending.len() <= capacity,
        b.lagged <= u64::MAX,
    ensures
        after_publish_all(b, rs, capacity).pending == (b.pending + rs).skip(
            overflow((b.pending + rs).len(), capacity) as int,
        ),
        after_publish_all(b, rs, capacity).lagged == capped(
            b.lagged + overflow((b.pending + rs).len(), capacity),
        ),
    decreases rs.len(),
{
    let all = b.pending + rs;
    if rs.len() == 0 {
        assert(all =~= b.pending);
        assert(all.skip(0) =~= all);
    } else {
        let head = rs.drop_last();
        lemma_publish_keeps_newest(b, head, capacity);
        let all_head = b.pending + head;
        let d = overflow(all_head.len(), capacity);
        let prev = after_publish_all(b, head, capacity);
        let next = after_publish(prev, rs.last(), capacity);
        assert(all =~= all_head.push(rs.last()));
        if prev.pending.len() < capacity {
            assert(d == 0);
            assert(all_head.skip(0) =~= all_head);
            assert(all.skip(0) =~= all);
        } else if capacity == 0 {
            assert(next.pending =~= all.skip(all.len() as int));
        } else {
            assert(next.pending =~= all.skip((d + 1) as int));
        }
    }
}

/// A subscriber that was told of its drops reads its queue from the front: after `k` readings
/// were taken, the rest of the queue is left.
pub proof fn lemma_nexts_take_from_front(b: Backlog, k: nat)
    requires
        b.lagged == 0,
        k <= b.pending.len(),
    ensures
        after_nexts(b, k) == (Backlog { pending: b.pending.skip(k as int), lagged: 0 }),
    decreases k,
{
    if k == 0 {
        assert(b.pending.skip(0) =~= b.pending);
    } else {
        lemma_nexts_take_from_front(b, (k - 1) as nat);
        assert(b.pending.skip(k - 1).drop_first() =~= b.pending.skip(k as int));
    }
}

/// Readings come out in the order in which they were published. Where no more readings are
/// published to a new subscriber than its queue holds, its `k`-th outcome is the delivery of
/// the `k`-th reading, and after the last of them nothing is left.
pub proof fn lemma_delivered_in_order(rs: Seq<Reading>, capacity: nat, k: nat)
    requires
        rs.len() <= capacity,
        k <= rs.len(),
    ensures
        k < rs.len() ==> next_outcome(
            after_nexts(after_publish_all(empty_backlog(), rs, capacity), k),
        ) == Some(WaitOutcome::Delivered(rs[k as int])),
        k == rs.len() ==> next_outcome(
            after_nexts(after_publish_all(empty_backlog(), rs, capacity), k),
        ) == None::<WaitOutcome>,
{
    let b = after_publish_all(empty_backlog(), rs, capacity);
    lemma_publish_keeps_newest(empty_backlog(), rs, capacity);
    assert(Seq::<Reading>::empty() + rs =~= rs);
    assert(rs.skip(0) =~= rs);
    lemma_nexts_take_from_front(b, k);
}

/// A queue that overflowed reports its loss once. Where more readings are published to a
/// new subscriber than its queue holds, its first outcome is the number of readings that
/// were dropped; the outcomes after it are the deliveries of the readings that were kept,
/// the newest ones, in the order of publication; then nothing is left.
pub proof fn lemma_overflow_reported_once(rs: Seq<Reading>, capacity: nat, k: nat)
    requires
        rs.len() > capacity,
        k <= capacity,
    ensures
        next_outcome(after_publish_all(empty_backlog(), rs, capacity)) == Some(
            WaitOutcome::Lagged(capped((rs.len() - capacity) as nat) as u64),
        ),
        k < capacity ==> next_outcome(
            after_nexts(after_publish_all(empty_backlog(), rs, capacity), k + 1),
        ) == Some(WaitOutcome::Delivered(rs[rs.len() - capacity + k])),
        k == capacity ==> next_outcome(
            after_nexts(after_publish_all(empty_backlog(), rs, capacity), k + 1),
        ) == None::<WaitOutcome>,
{
    let b = after_publish_all(empty_backlog(), rs, capacity);
    lemma_publish_keeps_newest(empty_backlog(), rs, capacity);
    assert(Seq::<Reading>::empty() + rs =~= rs);
    let told = after_next(b);
    assert(told == Backlog { pending: b.pending, lagged: 0 });
    lemma_nexts_take_from_front(told, k);
    lemma_nexts_shift(b, k);
}

/// Taking one outcome and then `k` more is taking `k + 1`.
pub proof fn lemma_nexts_shift(b: Backlog, k: nat)
    ensures
        after_nexts(after_next(b), k) == after_nexts(b, k + 1),
    decreases k,
{
    if k == 0 {
        assert(after_nexts(b, 1) == after_next(after_nexts(b, 0)));
    } else {
        lemma_nexts_shift(b, (k - 1) as nat);
    }
}

/// One thing done on the bus: a reading is published, or a subscriber takes its next outcome.
pub enum BusEvent {
    Publish(Reading),
    Next(int),
}

/// The backlogs of all subscribers after the events `events` took place, one after the other.
pub open spec fn after_events(bs: Seq<Backlog>, events: Seq<BusEvent>, capacity: nat) -> Seq<
    Backlog,
>
    decreases events.len(),
{
    if events.len() == 0 {
        bs
    } else {
        let before = after_events(bs, events.drop_last(), capacity);
        match events.last() {
            BusEvent::Publish(reading) => all_after_publish(before, reading, capacity),
            BusEvent::Next(who) => all_after_next(before, who),
        }
    }
}

/// The backlog of one subscriber alone, `who`, after the events `events`: what the others
/// take is passed over.
pub open spec fn alone_after_events(b: Backlog, who: int, events: Seq<BusEvent>, capacity: nat)
    -> Backlog
    decreases events.len(),
{
    if events.len() == 0 {
        b
    } else {
        let before = alone_after_events(b, who, events.drop_last(), capacity);
        match events.last() {
            BusEvent::Publish(reading) => after_publish(before, reading, capacity),
            BusEvent::Next(other) => if other == who {
                after_next(before)
            } else {
                before
            },
        }
    }
}

/// Subscribers do not affect one another. Whatever the others do, and however far they fall
/// behind, the backlog of a subscriber is what it would be if it were alone on the bus: it
/// follows from the readings published and from what the subscriber itself took.
pub proof fn lemma_subscribers_independent(
    bs: Seq<Backlog>,
    events: Seq<BusEvent>,
    capacity: nat,
    who: int,
)
    requires
        0 <= who < bs.len(),
    ensures
        after_events(bs, events, capacity).len() == bs.len(),
        after_events(bs, events, capacity)[who] == alone_after_events(
            bs[who],
            who,
            events,
            capacity,
        ),
    decreases events.len(),
{
    if events.len() > 0 {
        lemma_subscribers_independent(bs, events.drop_last(), capacity, who);
    }
}

} // verus!

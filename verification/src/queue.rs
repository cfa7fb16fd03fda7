//! The notify queue: a FIFO mailbox with a non-blocking push and a pop that
//! tells its caller to wait when nothing is there.

use std::collections::VecDeque;
use vstd::prelude::*;

verus! {

/// Which of the consumers that wait on a signal are to be woken.
#[derive(Clone, Copy, Debug, PartialEq, Eq, Structural)]
pub enum Wake {
    /// Nobody: the state did not change in a way a waiter cares about.
    Nobody,
    /// One waiter.
    One,
    /// Every consumer that waits at this moment.
    All,
}

/// Why a claim on the queue could not be served at once.
#[derive(Clone, Copy, Debug, PartialEq, Eq, Structural)]
pub enum QueueError {
    /// The queue holds nothing: wait for the next wake-up and claim again.
    Empty,
}

/// A FIFO mailbox of items of type `T`.
///
/// Its view is the sequence of items that wait, oldest first.
pub struct MSGQueue<T> {
    queue: VecDeque<T>,
}

impl<T> View for MSGQueue<T> {
    type V = Seq<T>;

    closed spec fn view(&self) -> Seq<T> {
        self.queue@
    }
}

impl<T> MSGQueue<T> {
    /// An empty queue.
    pub fn new() -> (q: Self)
        ensures
            q@ == Seq::<T>::empty(),
    {
        MSGQueue { queue: VecDeque::new() }
    }

    /// Appends `payload` at the tail. The result says whom to wake once the
    /// item is in: every waiting consumer, so that each looks again.
    pub fn push_back(&mut self, payload: T) -> (wake: Wake)
        ensures
            final(self)@ == old(self)@.push(payload),
            wake == Wake::All,
    {
        self.queue.push_back(payload);
        Wake::All
    }

    /// Claims the head item. `None` means that the queue is empty and the
    /// consumer has to wait for a wake-up before it claims again.
    pub fn next(&mut self) -> (item: Option<T>)
        ensures
            item == claimed(old(self)@),
            final(self)@ == after_claim(old(self)@),
    {
        let item = self.queue.pop_front();
        proof {
            assert(old(self)@.len() > 0 ==> self.queue@ =~= old(self)@.skip(1));
        }
        item
    }

    /// Claims the head item, like [`MSGQueue::next`], with the empty queue
    /// reported as [`QueueError::Empty`].
    pub fn next_error(&mut self) -> (item: Result<T, QueueError>)
        ensures
            item == match claimed(old(self)@) {
                Some(head) => Ok::<T, QueueError>(head),
                None => Err::<T, QueueError>(QueueError::Empty),
            },
            final(self)@ == after_claim(old(self)@),
    {
        match self.next() {
            Some(head) => Ok(head),
            None => Err(QueueError::Empty),
        }
    }

    /// The number of items that wait.
    pub fn len(&self) -> (n: usize)
        ensures
            n == self@.len(),
    {
        self.queue.len()
    }
}

/// What a claim on a queue with the items `items` hands out: the oldest
/// item, or nothing when there is none.
pub open spec fn claimed<T>(items: Seq<T>) -> Option<T> {
    if items.len() > 0 {
        Some(items[0])
    } else {
        None
    }
}

/// What a claim on a queue with the items `items` leaves behind.
pub open spec fn after_claim<T>(items: Seq<T>) -> Seq<T> {
    if items.len() > 0 {
        items.skip(1)
    } else {
        items
    }
}

/// One event at a queue that several producers and consumers share. The lock
/// around the queue puts the events of all of them in one order.
pub enum QueueEvent<T> {
    /// A producer pushes this item.
    Push(T),
    /// The consumer with this number claims the head item.
    Claim(nat),
}

/// A shared queue together with what has happened at it.
pub struct Mailbox<T> {
    /// The items that wait, oldest first.
    pub items: Seq<T>,
    /// Each delivery so far, in the order of the claims: the consumer and
    /// the item it got.
    pub delivered: Seq<(nat, T)>,
    /// The consumers that found the queue empty and wait for a wake-up.
    pub waiting: Set<nat>,
}

impl<T> Mailbox<T> {
    /// A queue with these items at which nothing has happened yet.
    pub open spec fn holding(items: Seq<T>) -> Mailbox<T> {
        Mailbox { items, delivered: Seq::empty(), waiting: Set::empty() }
    }

    /// The items delivered so far, in the order of the claims.
    pub open spec fn delivered_items(self) -> Seq<T> {
        Seq::new(self.delivered.len(), |i: int| self.delivered[i].1)
    }

    /// The state after one event: what `push_back` and `next` do to the
    /// items, with the bookkeeping of who got what and who waits.
    pub open spec fn step(self, event: QueueEvent<T>) -> Mailbox<T> {
        match event {
            QueueEvent::Push(item) => Mailbox {
                items: self.items.push(item),
                delivered: self.delivered,
                waiting: Set::empty(),
            },
            QueueEvent::Claim(consumer) => match claimed(self.items) {
                Some(head) => Mailbox {
                    items: after_claim(self.items),
                    delivered: self.delivered.push((consumer, head)),
                    waiting: self.waiting.remove(consumer),
                },
                None => Mailbox {
                    items: self.items,
                    delivered: self.delivered,
                    waiting: self.waiting.insert(consumer),
                },
            },
        }
    }

    /// The state after a run of events, first to last.
    pub open spec fn run(self, events: Seq<QueueEvent<T>>) -> Mailbox<T>
        decreases events.len(),
    {
        if events.len() == 0 {
            self
        } else {
            self.run(events.drop_last()).step(events.last())
        }
    }

    /// No consumer waits while an item is there to be claimed.
    pub open spec fn nobody_waits_in_vain(self) -> bool {
        self.items.len() > 0 ==> self.waiting == Set::<nat>::empty()
    }
}

/// The items that a run of events pushes, in the order of the pushes.
pub open spec fn pushed<T>(events: Seq<QueueEvent<T>>) -> Seq<T>
    decreases events.len(),
{
    if events.len() == 0 {
        Seq::empty()
    } else {
        match events.last() {
            QueueEvent::Push(item) => pushed(events.drop_last()).push(item),
            QueueEvent::Claim(_) => pushed(events.drop_last()),
        }
    }
}

/// Whether every event of the run is a claim.
pub open spec fn only_claims<T>(events: Seq<QueueEvent<T>>) -> bool {
    forall|i: int| 0 <= i < events.len() ==> events[i] is Claim
}

/// The run in which each of `items` is pushed in turn.
pub open spec fn pushes_of<T>(items: Seq<T>) -> Seq<QueueEvent<T>> {
    Seq::new(items.len(), |i: int| QueueEvent::Push(items[i]))
}

/// FIFO law. Whatever the interleaving of pushes and claims, the items
/// handed out so far followed by the items that still wait are the items
/// that were there or were pushed, in the order in which they came: nothing
/// is lost, nothing is handed out twice, and no item overtakes another.
pub proof fn law_fifo<T>(start: Mailbox<T>, events: Seq<QueueEvent<T>>)
    ensures
        start.run(events).delivered_items() + start.run(events).items
            == start.delivered_items() + start.items + pushed(events),
    decreases events.len(),
{
    if events.len() == 0 {
        assert(start.delivered_items() + start.items + pushed(events)
            =~= start.delivered_items() + start.items);
    } else {
        let before = start.run(events.drop_last());
        let after = start.run(events);
        law_fifo(start, events.drop_last());
        let total = start.delivered_items() + start.items + pushed(events.drop_last());
        assert(before.delivered_items() + before.items == total);
        match events.last() {
            QueueEvent::Push(item) => {
                assert(after.delivered_items() =~= before.delivered_items());
                assert(after.delivered_items() + after.items =~= total.push(item));
                assert(start.delivered_items() + start.items + pushed(events) =~= total.push(
                    item,
                ));
            },
            QueueEvent::Claim(consumer) => {
                if before.items.len() > 0 {
                    assert(after.delivered_items() =~= before.delivered_items().push(
                        before.items[0],
                    ));
                    assert(after.delivered_items() + after.items =~= before.delivered_items()
                        + before.items);
                } else {
                    assert(after.delivered_items() =~= before.delivered_items());
                }
            },
        }
    }
}

/// After `n` pushes into an empty queue and then `n` claims, the claims
/// have handed out the pushed items in the order of the pushes, and the
/// queue is empty again.
pub proof fn law_pushes_then_claims<T>(items: Seq<T>, claims: Seq<QueueEvent<T>>)
    requires
        only_claims(claims),
        claims.len() == items.len(),
    ensures
        Mailbox::holding(Seq::<T>::empty()).run(pushes_of(items) + claims).delivered_items()
            == items,
        Mailbox::holding(Seq::<T>::empty()).run(pushes_of(items) + claims).items
            == Seq::<T>::empty(),
{
    let empty = Mailbox::holding(Seq::<T>::empty());
    let filled = empty.run(pushes_of(items));
    lemma_run_pushes(empty, items);
    lemma_run_concat(empty, pushes_of(items), claims);
    law_claims_drain_in_order(filled, claims);
    assert(empty.delivered_items() =~= Seq::<T>::empty());
    assert(filled.delivered_items() =~= Seq::<T>::empty());
    assert(filled.items =~= items);
    assert(items.take(items.len() as int) =~= items);
    assert(items.skip(items.len() as int) =~= Seq::<T>::empty());
    assert(Seq::<T>::empty() + items =~= items);
}

/// Racing consumers. When only claims arrive, in whatever order the lock
/// lets the consumers in, the first claims get the waiting items one each,
/// oldest first, and every later claim gets nothing and waits: each item
/// has exactly one receiver, and the total handed out is the number of
/// items or the number of claims, whichever is smaller.
pub proof fn law_claims_drain_in_order<T>(start: Mailbox<T>, claims: Seq<QueueEvent<T>>)
    requires
        only_claims(claims),
    ensures
        ({
            let served = if claims.len() <= start.items.len() {
                claims.len() as int
            } else {
                start.items.len() as int
            };
            let end = start.run(claims);
            &&& end.items == start.items.skip(served)
            &&& end.delivered.len() == start.delivered.len() + served
            &&& end.delivered_items() == start.delivered_items() + start.items.take(served)
            &&& forall|k: int|
                0 <= k < served ==> #[trigger] end.delivered[start.delivered.len() + k] == (
                    claims[k]->Claim_0,
                    start.items[k],
                )
            &&& forall|k: int|
                served <= k < claims.len() ==> end.waiting.contains(
                    #[trigger] claims[k]->Claim_0,
                )
        }),
    decreases claims.len(),
{
    let end = start.run(claims);
    if claims.len() == 0 {
        assert(start.items.skip(0) =~= start.items);
        assert(start.delivered_items() + start.items.take(0) =~= start.delivered_items());
    } else {
        let earlier = claims.drop_last();
        law_claims_drain_in_order(start, earlier);
        let before = start.run(earlier);
        let consumer = claims.last()->Claim_0;
        assert(claims.last() == QueueEvent::<T>::Claim(consumer));
        let served_before = if earlier.len() <= start.items.len() {
            earlier.len() as int
        } else {
            start.items.len() as int
        };
        let served = if claims.len() <= start.items.len() {
            claims.len() as int
        } else {
            start.items.len() as int
        };
        assert forall|k: int| 0 <= k < earlier.len() implies earlier[k] == claims[k] by {}
        if before.items.len() > 0 {
            assert(served == served_before + 1);
            assert(before.items[0] == start.items[served_before]);
            assert(end.items =~= start.items.skip(served));
            assert(end.delivered_items() =~= before.delivered_items().push(before.items[0]));
            assert(start.items.take(served) =~= start.items.take(served_before).push(
                start.items[served_before],
            ));
            assert(end.delivered_items() =~= start.delivered_items() + start.items.take(
                served,
            ));
            assert forall|k: int| 0 <= k < served implies #[trigger] end.delivered[start.delivered.len()
                + k] == (claims[k]->Claim_0, start.items[k]) by {
                if k < served_before {
                    assert(end.delivered[start.delivered.len() + k]
                        == before.delivered[start.delivered.len() + k]);
                }
            }
        } else {
            assert(served == served_before);
            assert forall|k: int| served <= k < claims.len() implies end.waiting.contains(
                #[trigger] claims[k]->Claim_0,
            ) by {
                if k < earlier.len() {
                    assert(before.waiting.contains(earlier[k]->Claim_0));
                }
            }
        }
    }
}

/// No lost wake-up. From a state in which nobody waits in vain, no run of
/// events leads to one in which a consumer waits while an item is there.
pub proof fn law_no_lost_wakeup<T>(start: Mailbox<T>, events: Seq<QueueEvent<T>>)
    requires
        start.nobody_waits_in_vain(),
    ensures
        start.run(events).nobody_waits_in_vain(),
    decreases events.len(),
{
    if events.len() > 0 {
        law_no_lost_wakeup(start, events.drop_last());
        let before = start.run(events.drop_last());
        match events.last() {
            QueueEvent::Push(item) => {},
            QueueEvent::Claim(consumer) => {
                if before.items.len() > 0 {
                    assert(before.waiting.remove(consumer) =~= Set::<nat>::empty());
                }
            },
        }
    }
}

/// A run in two parts is the second part run from where the first ended.
proof fn lemma_run_concat<T>(
    start: Mailbox<T>,
    first: Seq<QueueEvent<T>>,
    second: Seq<QueueEvent<T>>,
)
    ensures
        start.run(first + second) == start.run(first).run(second),
    decreases second.len(),
{
    if second.len() == 0 {
        assert(first + second =~= first);
    } else {
        lemma_run_concat(start, first, second.drop_last());
        assert((first + second).drop_last() =~= first + second.drop_last());
        assert((first + second).last() == second.last());
    }
}

/// Pushing items one after another appends them and hands nothing out.
proof fn lemma_run_pushes<T>(start: Mailbox<T>, items: Seq<T>)
    ensures
        start.run(pushes_of(items)).items == start.items + items,
        start.run(pushes_of(items)).delivered == start.delivered,
    decreases items.len(),
{
    if items.len() == 0 {
        assert(start.items + items =~= start.items);
    } else {
        lemma_run_pushes(start, items.drop_last());
        assert(pushes_of(items).drop_last() =~= pushes_of(items.drop_last()));
        assert(pushes_of(items).last() == QueueEvent::Push(items.last()));
        assert((start.items + items.drop_last()).push(items.last()) =~= start.items + items);
    }
}

} // verus!

//! The ingestion queue: an unbounded, concurrency-safe FIFO of
//! accepted-but-not-yet-durable creation events. `push` never blocks and
//! never fails; a drain takes everything currently queued, in arrival
//! order. Backed by deadqueue's unlimited queue, opaque to the verifier
//! and modelled by `queue_events`.
use vstd::prelude::*;

use crate::dto::CreationEvent;

verus! {

/// Handle on the ingestion queue. Holds deadqueue's `unlimited::Queue`,
/// which Verus does not read; `queue_events` names its contents.
#[verifier::external_body]
pub struct IngestQueue {
    inner: deadqueue::unlimited::Queue<CreationEvent>,
}

/// The events that `q` holds, front of the queue first.
pub uninterp spec fn queue_events(q: IngestQueue) -> Seq<CreationEvent>;

impl IngestQueue {
    /// Relies on deadqueue's `unlimited::Queue::new`: an empty queue.
    #[verifier::external_body]
    pub fn new() -> (q: IngestQueue)
        ensures
            queue_events(q) == Seq::<CreationEvent>::empty(),
    {
        IngestQueue { inner: deadqueue::unlimited::Queue::new() }
    }

    /// Relies on deadqueue's `unlimited::Queue::push`: appends the item at
    /// the back of the queue; unbounded, so it never blocks and never fails.
    #[verifier::external_body]
    pub fn push(&mut self, ev: CreationEvent)
        ensures
            queue_events(*final(self)) == queue_events(*old(self)).push(ev),
    {
        self.inner.push(ev);
    }

    /// Relies on deadqueue's `unlimited::Queue::len`: the number of items
    /// currently stored.
    #[verifier::external_body]
    pub fn len(&self) -> (n: usize)
        ensures
            n == queue_events(*self).len(),
    {
        self.inner.len()
    }

    /// Relies on deadqueue's `unlimited::Queue::try_pop`: takes the front
    /// item, or returns `None` when the queue is empty.
    #[verifier::external_body]
    pub(crate) fn try_pop(&mut self) -> (r: Option<CreationEvent>)
        ensures
            queue_events(*old(self)).len() == 0 ==> r is None && queue_events(*final(self))
                == queue_events(*old(self)),
            queue_events(*old(self)).len() > 0 ==> r == Some(queue_events(*old(self))[0])
                && queue_events(*final(self)) == queue_events(*old(self)).drop_first(),
    {
        self.inner.try_pop()
    }
}

/// Drains everything currently queued, in arrival order, leaving the
/// queue empty.
pub fn drain_all(q: &mut IngestQueue) -> (r: Vec<CreationEvent>)
    ensures
        r@ == queue_events(*old(q)),
        queue_events(*final(q)).len() == 0,
{
    let mut r: Vec<CreationEvent> = Vec::new();
    loop
        invariant_except_break
            queue_events(*old(q)) =~= r@ + queue_events(*q),
        ensures
            queue_events(*old(q)) =~= r@ + queue_events(*q),
            queue_events(*q).len() == 0,
        decreases queue_events(*q).len(),
    {
        match q.try_pop() {
            Some(ev) => {
                r.push(ev);
                proof {
                    assert(queue_events(*old(q)) =~= r@ + queue_events(*q));
                }
            },
            None => {
                break ;
            },
        }
    }
    assert(r@ =~= queue_events(*old(q)));
    r
}

} // verus!

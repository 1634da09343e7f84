//! The event bus: a first-in first-out queue of structural-change notices.
use vstd::prelude::*;

verus! {

/// A notice on the bus.
pub enum Events {
    /// The subtree of the named module changed shape and must be grafted anew.
    ModuleUpdated(String),
}

/// An unbounded queue of events, delivered in the order they were sent.
pub struct EventManager {
    queue: Vec<Events>,
}

impl View for EventManager {
    type V = Seq<Events>;

    closed spec fn view(&self) -> Seq<Events> {
        self.queue@
    }
}

impl EventManager {
    pub fn new() -> (r: Self)
        ensures
            r@ == Seq::<Events>::empty(),
    {
        EventManager { queue: Vec::new() }
    }

    /// Puts `event` at the back of the queue.
    pub fn send(&mut self, event: Events)
        ensures
            final(self)@ == old(self)@.push(event),
    {
        self.queue.push(event);
    }

    /// Takes the event at the front of the queue, if any.
    pub fn receive(&mut self) -> (r: Option<Events>)
        ensures
            old(self)@.len() == 0 ==> r is None && final(self)@ == old(self)@,
            old(self)@.len() > 0 ==> r == Some(old(self)@[0]) && final(self)@ == old(self)@.drop_first(),
    {
        if self.queue.len() == 0 {
            None
        } else {
            let e = self.queue.remove(0);
            proof {
                assert(self.queue@ =~= old(self)@.drop_first());
            }
            Some(e)
        }
    }

    /// The number of events waiting.
    pub fn len(&self) -> (r: usize)
        ensures
            r == self@.len(),
    {
        self.queue.len()
    }
}

/// Events leave the queue in the order they entered it: sending `a` then
/// `b` to an empty queue and receiving twice gives `a`, then `b`.
pub proof fn lemma_fifo(q0: Seq<Events>, a: Events, b: Events)
    requires
        q0.len() == 0,
    ensures
        q0.push(a).push(b)[0] == a,
        q0.push(a).push(b).drop_first()[0] == b,
        q0.push(a).push(b).drop_first().drop_first().len() == 0,
{
}

} // verus!

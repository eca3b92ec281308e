//! A runtime that delivers mail in the order it was sent.
use std::collections::VecDeque;

use vstd::prelude::*;

use crate::envelope::{delivery, Deliverable, Mail};
use crate::schedule::{
    lemma_queue_outcome_at, lemma_queue_turn_keeps_outcome, queue_after, queue_drains,
    queue_outcome,
};

verus! {

/// A runtime that owns a system and delivers mail to it first-in first-out.
pub struct OrderedRuntime<S> {
    pub system: S,
}

impl<S> OrderedRuntime<S> {
    pub fn new(system: S) -> (r: Self)
        ensures
            r.system == system,
    {
        Self { system: system }
    }

    /// Delivers the letters, and every letter their delivery sends, until no
    /// mail is left. Letters are delivered in the order they were sent: the
    /// given mail first, in its order, and the mail each delivery sends
    /// behind all that was sent before it.
    pub fn dispatch<D: Deliverable<S>>(self, mail: Mail<D>) -> (r: Self)
        requires
            mail@.len() > 0 ==> D::obeys_delivery_spec(),
            queue_drains(delivery::<S, D>(), self.system, mail@),
        ensures
            r.system == queue_outcome(delivery::<S, D>(), self.system, mail@),
    {
        let ghost step = delivery::<S, D>();
        let ghost start = self.system;
        let ghost given = mail@;
        let ghost mut fuel: nat = choose|n: nat|
            (#[trigger] queue_after(step, start, given, n)).1.len() == 0;
        let mut queue: VecDeque<D> = VecDeque::new();
        for m in it: mail
            invariant
                it.seq() == given,
                queue@ == given.take(it.index() as int),
        {
            queue.push_back(m);
        }
        assert(queue@ == given);
        let mut system = self.system;
        while queue.len() > 0
            invariant
                step == delivery::<S, D>(),
                queue@.len() > 0 ==> D::obeys_delivery_spec(),
                queue_after(step, system, queue@, fuel).1.len() == 0,
                queue_outcome(step, system, queue@) == queue_outcome(step, start, given),
            decreases fuel,
        {
            proof {
                lemma_queue_turn_keeps_outcome(step, system, queue@, fuel);
            }
            let ghost before = queue@;
            let e = queue.pop_front().unwrap();
            let (next, new_system) = e.deliver(system);
            let ghost sent = next@;
            system = new_system;
            for n in it: next
                invariant
                    it.seq() == sent,
                    queue@ == before.drop_first() + sent.take(it.index() as int),
            {
                queue.push_back(n);
            }
            assert(sent.take(sent.len() as int) == sent);
            proof {
                fuel = (fuel - 1) as nat;
            }
        }
        proof {
            lemma_queue_outcome_at(step, system, queue@, 0);
        }
        OrderedRuntime { system }
    }
}

} // verus!

//! Mailboxes, envelopes and a runtime that delivers them last-in first-out.
//!
//! Everything is based around handling a message type, and more than one type
//! of message can exist in a system. A system names one letter type `D` that
//! can carry every kind of envelope it knows, and implements [`Deliverable`]
//! for it.
use vstd::prelude::*;

use crate::schedule::{
    lemma_stack_outcome_at, lemma_stack_turn_keeps_outcome, stack_after, stack_drains, stack_outcome,
    stack_turn,
};

verus! {

/// The description of how to send messages to one kind of worker: the type
/// that tells its mailboxes apart and the type of message they take.
pub trait Mailbox {
    type Id: Copy;
    type Message: Copy;
}

/// A message on its way to one mailbox. Two envelopes with the same id but a
/// different mailbox type are for different workers.
pub struct Envelope<M: Mailbox> {
    pub id: M::Id,
    pub message: M::Message,
}

impl<M: Mailbox> Clone for Envelope<M> {
    fn clone(&self) -> (r: Self)
        ensures
            r == *self,
    {
        Envelope { id: self.id, message: self.message }
    }
}

impl<M: Mailbox> Copy for Envelope<M> {}

/// A letter that a system of type `S` knows how to deliver.
///
/// Delivering takes the system and gives it back, together with the mail the
/// delivery sent.
pub trait Deliverable<S>: Sized {
    /// Whether `deliver` follows `delivered`. A letter type whose delivery is
    /// verified says so; of any other, nothing is known.
    open spec fn obeys_delivery_spec() -> bool {
        false
    }

    /// The mail sent and the system left behind when this letter is
    /// delivered to `system`.
    open spec fn delivered(&self, system: S) -> (Seq<Self>, S) {
        arbitrary()
    }

    fn deliver(&self, system: S) -> (r: (Vec<Self>, S))
        ensures
            Self::obeys_delivery_spec() ==> r.0@ == self.delivered(system).0,
            Self::obeys_delivery_spec() ==> r.1 == self.delivered(system).1,
    ;
}

/// A list of letters that are still to be delivered.
pub type Todos<D> = Vec<D>;

/// Delivery of letters of type `D` to systems of type `S`, as a function.
pub open spec fn delivery<S, D: Deliverable<S>>() -> spec_fn(D, S) -> (Seq<D>, S) {
    |d: D, s: S| d.delivered(s)
}

/// A worker that handles all the messages of one mailbox.
pub trait Worker<M: Mailbox, D>: Sized {
    fn handle(self, message: &M::Message) -> (Todos<D>, Self);
}

/// A system that can find the worker for a mailbox of type `M`.
pub trait Home<M: Mailbox, D, W: Worker<M, D>> {
    fn get(&mut self, id: M::Id) -> W;

    fn put(&mut self, id: M::Id, worker: W);
}

/// Delivers letters, the one added last first, until none is left, and gives
/// back the system.
pub(crate) fn run_stack<S, D: Deliverable<S>>(system: S, envelopes: Todos<D>) -> (r: S)
    requires
        envelopes@.len() > 0 ==> D::obeys_delivery_spec(),
        stack_drains(delivery::<S, D>(), system, envelopes@),
    ensures
        r == stack_outcome(delivery::<S, D>(), system, envelopes@),
{
    let ghost step = delivery::<S, D>();
    let ghost start = system;
    let ghost mail = envelopes@;
    let ghost mut fuel: nat = choose|n: nat|
        (#[trigger] stack_after(step, system, envelopes@, n)).1.len() == 0;
    let mut system = system;
    let mut envelopes = envelopes;
    while envelopes.len() > 0
        invariant
            step == delivery::<S, D>(),
            envelopes@.len() > 0 ==> D::obeys_delivery_spec(),
            stack_after(step, system, envelopes@, fuel).1.len() == 0,
            stack_outcome(step, system, envelopes@) == stack_outcome(step, start, mail),
        decreases fuel,
    {
        proof {
            lemma_stack_turn_keeps_outcome(step, system, envelopes@, fuel);
        }
        let e = envelopes.pop().unwrap();
        let (mut sent, next) = e.deliver(system);
        envelopes.append(&mut sent);
        system = next;
        proof {
            fuel = (fuel - 1) as nat;
        }
    }
    proof {
        lemma_stack_outcome_at(step, system, envelopes@, 0);
    }
    system
}

/// A runtime that owns a system and delivers mail to it.
pub struct Runtime<S>(pub S);

impl<S> Runtime<S> {
    /// Delivers the letters, and every letter their delivery sends, until no
    /// mail is left. The letter added last is delivered first.
    pub fn dispatch<D: Deliverable<S>>(self, envelopes: Todos<D>) -> (r: Self)
        requires
            envelopes@.len() > 0 ==> D::obeys_delivery_spec(),
            stack_drains(delivery::<S, D>(), self.0, envelopes@),
        ensures
            r.0 == stack_outcome(delivery::<S, D>(), self.0, envelopes@),
    {
        Runtime(run_stack(self.0, envelopes))
    }
}

/// One turn of the last-in first-out runtime delivers the letter on top of
/// the mail to the system as it stands, keeps the system that delivery
/// leaves, and puts every letter the delivery sent, in its order, on top of
/// the rest of the mail.
pub proof fn law_stack_turn_is_the_letters_delivery<S, D: Deliverable<S>>(system: S, mail: Seq<D>)
    requires
        mail.len() > 0,
    ensures
        stack_after(delivery::<S, D>(), system, mail, 1).0 == mail.last().delivered(system).1,
        stack_after(delivery::<S, D>(), system, mail, 1).1 == mail.drop_last() + mail.last().delivered(
            system,
        ).0,
        stack_after(delivery::<S, D>(), system, mail, 1).1.len() == mail.len() - 1
            + mail.last().delivered(system).0.len(),
{
    let t = stack_turn(delivery::<S, D>(), system, mail);
    assert(stack_after(delivery::<S, D>(), t.0, t.1, 0) == t);
}

} // verus!

//! Envelopes addressed to workers, and the letters a system delivers.
//!
//! An address type and a message type make an envelope. Envelopes can share
//! an address type and differ in message type, so that one worker can take
//! more than one type of message.
use vstd::prelude::*;

use crate::schedule::{queue_after, queue_turn};

verus! {

/// A message on its way to the worker at `address`.
pub struct Envelope<A, M> {
    pub address: A,
    pub message: M,
}

/// A letter that a system of type `S` knows how to deliver.
///
/// Delivering consumes the letter, takes the system and gives it back,
/// together with the mail the delivery sent.
pub trait Deliverable<S>: Sized {
    /// Whether `deliver` follows `delivered`. A letter type whose delivery is
    /// verified says so; of any other, nothing is known.
    open spec fn obeys_delivery_spec() -> bool {
        false
    }

    /// The mail sent and the system left behind when this letter is
    /// delivered to `system`.
    open spec fn delivered(self, system: S) -> (Seq<Self>, S) {
        arbitrary()
    }

    fn deliver(self, system: S) -> (r: (Mail<Self>, S))
        ensures
            Self::obeys_delivery_spec() ==> r.0@ == self.delivered(system).0,
            Self::obeys_delivery_spec() ==> r.1 == self.delivered(system).1,
    ;
}

/// Letters that are still to be delivered.
pub type Mail<D> = Vec<D>;

/// Delivery of letters of type `D` to systems of type `S`, as a function.
pub open spec fn delivery<S, D: Deliverable<S>>() -> spec_fn(D, S) -> (Seq<D>, S) {
    |d: D, s: S| d.delivered(s)
}

/// Letters that can carry an envelope with an address of type `A` and a
/// message of type `M`: a system's letter type implements it for every kind
/// of envelope the system can deliver.
pub trait Post<A, M>: Sized {
    /// Whether `post` follows `posted`. A letter type whose code is verified
    /// says so; of any other, nothing is known.
    open spec fn obeys_post_spec() -> bool {
        false
    }

    /// The letter that carries `envelope`.
    open spec fn posted(envelope: Envelope<A, M>) -> Self {
        arbitrary()
    }

    fn post(envelope: Envelope<A, M>) -> (r: Self)
        ensures
            Self::obeys_post_spec() ==> r == Self::posted(envelope),
    ;
}

/// One turn of the first-in first-out runtime delivers the first letter of
/// the mail to the system as it stands, keeps the system that delivery
/// leaves, and queues every letter the delivery sent, in its order, behind
/// the rest of the mail.
pub proof fn law_queue_turn_is_the_letters_delivery<S, D: Deliverable<S>>(system: S, mail: Seq<D>)
    requires
        mail.len() > 0,
    ensures
        queue_after(delivery::<S, D>(), system, mail, 1).0 == mail[0].delivered(system).1,
        queue_after(delivery::<S, D>(), system, mail, 1).1 == mail.drop_first() + mail[0].delivered(
            system,
        ).0,
        queue_after(delivery::<S, D>(), system, mail, 1).1.len() == mail.len() - 1
            + mail[0].delivered(system).0.len(),
{
    let t = queue_turn(delivery::<S, D>(), system, mail);
    assert(queue_after(delivery::<S, D>(), t.0, t.1, 0) == t);
}

} // verus!
